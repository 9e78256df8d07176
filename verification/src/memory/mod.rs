mod linear_memory;
mod memory_mapper;
mod output_memory;
mod region_memory;

pub use linear_memory::LinearMemory;
pub use memory_mapper::{DeviceView, MappableDevice, MappingMode, MemoryMapper, RegionView};
pub use output_memory::{OutputCommand, OutputEvent, OutputMemory};
pub use region_memory::RegionMemory;

use vstd::prelude::*;

use crate::word::Word;

verus! {

/// What can go wrong when the machine touches its memory.
#[derive(Debug)]
pub enum Error<const SIZE: usize> {
    UnmappedAddress(Word<SIZE>),
    InvalidAddress(u16),
    StackOverflow,
    StackUnderflow,
}

/// The little-endian word made of a low and a high byte.
pub open spec fn bytes_to_word(low: u8, high: u8) -> u16 {
    (low as int + high as int * 256) as u16
}

/// The low byte of a word.
pub open spec fn low_byte(word: u16) -> u8 {
    (word as int % 256) as u8
}

/// The high byte of a word.
pub open spec fn high_byte(word: u16) -> u8 {
    (word as int / 256) as u8
}

/// Whether `address + offset` is an address of a memory of `SIZE` bytes.
pub open spec fn fits<const SIZE: usize>(address: u16, offset: int) -> bool {
    address + offset < SIZE && address + offset <= u16::MAX
}

/// A byte-addressable device of a memory of `SIZE` bytes.
///
/// Each operation is described over the device's view by a spec function of
/// the implementing type: a read gives back a value or an error; a write gives
/// the view after the write together with the outcome.
pub trait Addressable<const SIZE: usize>: View + Sized {
    spec fn model_read(mem: Self::V, address: u16) -> Result<u8, Error<SIZE>>;

    spec fn model_write(mem: Self::V, address: u16, byte: u8) -> (Self::V, Result<(), Error<SIZE>>);

    spec fn model_read_word(mem: Self::V, address: u16) -> Result<u16, Error<SIZE>>;

    spec fn model_write_word(mem: Self::V, address: u16, word: u16) -> (Self::V, Result<(), Error<SIZE>>);

    fn read(&self, address: Word<SIZE>) -> (r: Result<u8, Error<SIZE>>)
        ensures
            r == Self::model_read(self@, address.spec_value()),
    ;

    fn write(&mut self, address: Word<SIZE>, byte: u8) -> (r: Result<(), Error<SIZE>>)
        ensures
            (final(self)@, r) == Self::model_write(old(self)@, address.spec_value(), byte),
    ;

    fn read_word(&self, address: Word<SIZE>) -> (r: Result<u16, Error<SIZE>>)
        ensures
            r == Self::model_read_word(self@, address.spec_value()),
    ;

    fn write_word(&mut self, address: Word<SIZE>, word: u16) -> (r: Result<(), Error<SIZE>>)
        ensures
            (final(self)@, r) == Self::model_write_word(old(self)@, address.spec_value(), word),
    ;

}

/// The words that `inspect_address` reads: `count` words from `address` on, or
/// fewer where the memory ends first.
pub open spec fn inspect_spec<const SIZE: usize, A: Addressable<SIZE>>(
    mem: A::V,
    address: u16,
    count: nat,
) -> Result<Seq<u16>, Error<SIZE>>
    decreases count,
{
    if count == 0 {
        Ok(Seq::empty())
    } else {
        match A::model_read_word(mem, address) {
            Err(e) => Err(e),
            Ok(w) => if fits::<SIZE>(address, 2) {
                match inspect_spec::<SIZE, A>(mem, (address + 2) as u16, (count - 1) as nat) {
                    Ok(rest) => Ok(seq![w] + rest),
                    Err(e) => Err(e),
                }
            } else {
                Ok(seq![w])
            },
        }
    }
}

/// Reads `size` words from `address` on, stopping early at the end of the memory.
pub fn inspect_address<const SIZE: usize, A: Addressable<SIZE>>(
    mem: &A,
    address: Word<SIZE>,
    size: usize,
) -> (r: Result<Vec<u16>, Error<SIZE>>)
    ensures
        match inspect_spec::<SIZE, A>(mem@, address.spec_value(), size as nat) {
            Ok(words) => r matches Ok(v) && v@ == words,
            Err(e) => r == Err::<Vec<u16>, Error<SIZE>>(e),
        },
{
    let mut curr = address;
    let mut words: Vec<u16> = Vec::with_capacity(size);
    let mut i: usize = 0;
    while i < size
        invariant
            i <= size,
            inspect_spec::<SIZE, A>(mem@, address.spec_value(), size as nat) == (match inspect_spec::<
                SIZE,
                A,
            >(mem@, curr.spec_value(), (size - i) as nat) {
                Ok(rest) => Ok(words@ + rest),
                Err(e) => Err(e),
            }),
        decreases size - i,
    {
        let w = mem.read_word(curr)?;
        let ghost before = words@;
        words.push(w);
        i = i + 1;
        let next = curr.next_word();
        match next {
            Ok(n) => {
                let ghost rest = inspect_spec::<SIZE, A>(mem@, n.spec_value(), (size - i) as nat);
                assert(rest is Ok ==> before + (seq![w] + rest->Ok_0) =~= words@ + rest->Ok_0);
                curr = n;
            },
            Err(_) => {
                assert(before + seq![w] =~= words@);
                return Ok(words);
            },
        }
    }
    assert(words@ =~= words@ + Seq::<u16>::empty());
    Ok(words)
}

/// A word read as two byte reads through `read`, the low byte first.
pub open spec fn read_word_by_bytes<const SIZE: usize>(
    read: spec_fn(u16) -> Result<u8, Error<SIZE>>,
    address: u16,
) -> Result<u16, Error<SIZE>> {
    match read(address) {
        Err(e) => Err(e),
        Ok(first) => if fits::<SIZE>(address, 1) {
            match read((address + 1) as u16) {
                Err(e) => Err(e),
                Ok(second) => Ok(bytes_to_word(first, second)),
            }
        } else {
            Err(Error::StackOverflow)
        },
    }
}

/// A word written as two byte writes through `write`, the low byte first.
pub open spec fn write_word_by_bytes<const SIZE: usize, V>(
    write: spec_fn(V, u16, u8) -> (V, Result<(), Error<SIZE>>),
    mem: V,
    address: u16,
    word: u16,
) -> (V, Result<(), Error<SIZE>>) {
    let (m1, r1) = write(mem, address, low_byte(word));
    match r1 {
        Err(e) => (m1, Err(e)),
        Ok(_) => if fits::<SIZE>(address, 1) {
            write(m1, (address + 1) as u16, high_byte(word))
        } else {
            (m1, Err(Error::StackOverflow))
        },
    }
}

/// A word split into its bytes is made whole again.
pub proof fn lemma_word_bytes(word: u16)
    ensures
        bytes_to_word(low_byte(word), high_byte(word)) == word,
{
}

} // verus!
