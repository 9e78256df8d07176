use vstd::prelude::*;

use super::{Addressable, Error, read_word_by_bytes, write_word_by_bytes};
use crate::word::Word;

verus! {

/// Plain random-access memory of exactly `SIZE` bytes, all zero at first.
#[derive(Debug)]
pub struct LinearMemory<const SIZE: usize> {
    inner: Vec<u8>,
}

/// The byte at `i` of the bytes kept, zero past them.
pub open spec fn kept_byte(inner: Seq<u8>, i: int) -> u8 {
    if i < inner.len() {
        inner[i]
    } else {
        0u8
    }
}

impl<const SIZE: usize> View for LinearMemory<SIZE> {
    type V = Seq<u8>;

    /// Always `SIZE` bytes.
    closed spec fn view(&self) -> Seq<u8> {
        Seq::new(SIZE as nat, |i: int| kept_byte(self.inner@, i))
    }
}

impl<const SIZE: usize> LinearMemory<SIZE> {
    /// Every linear memory holds `SIZE` bytes.
    pub proof fn lemma_len(m: LinearMemory<SIZE>)
        ensures
            m@.len() == SIZE,
    {
    }

    /// A memory of `SIZE` zero bytes.
    pub fn new() -> (m: Self)
        ensures
            m@ == Seq::new(SIZE as nat, |i: int| 0u8),
    {
        let m = LinearMemory { inner: Vec::new() };
        assert(m@ =~= Seq::new(SIZE as nat, |i: int| 0u8));
        m
    }

    /// A memory of `SIZE` bytes that starts with `bytes` and is zero after them.
    pub fn from_bytes(bytes: &[u8]) -> (m: Self)
        requires
            bytes@.len() <= SIZE,
        ensures
            m@ == Seq::new(SIZE as nat, |i: int| if i < bytes@.len() { bytes@[i] } else { 0u8 }),
    {
        let m = LinearMemory { inner: vstd::slice::slice_to_vec(bytes) };
        assert(m@ =~= Seq::new(SIZE as nat, |i: int| if i < bytes@.len() { bytes@[i] } else { 0u8 }));
        m
    }

    /// The number of bytes of this memory.
    pub fn len(&self) -> (n: usize)
        ensures
            n == self@.len(),
            n == SIZE,
    {
        SIZE
    }
}

impl<const SIZE: usize> Addressable<SIZE> for LinearMemory<SIZE> {
    open spec fn model_read(mem: Seq<u8>, address: u16) -> Result<u8, Error<SIZE>> {
        if (address as int) < mem.len() {
            Ok(mem[address as int])
        } else {
            Err(Error::InvalidAddress(address))
        }
    }

    open spec fn model_write(mem: Seq<u8>, address: u16, byte: u8) -> (Seq<u8>, Result<(), Error<SIZE>>) {
        if (address as int) < mem.len() {
            (mem.update(address as int, byte), Ok(()))
        } else {
            (mem, Err(Error::InvalidAddress(address)))
        }
    }

    open spec fn model_read_word(mem: Seq<u8>, address: u16) -> Result<u16, Error<SIZE>> {
        read_word_by_bytes::<SIZE>(|a: u16| Self::model_read(mem, a), address)
    }

    open spec fn model_write_word(mem: Seq<u8>, address: u16, word: u16) -> (Seq<u8>, Result<(), Error<SIZE>>) {
        write_word_by_bytes::<SIZE, Seq<u8>>(
            |m: Seq<u8>, a: u16, b: u8| Self::model_write(m, a, b),
            mem,
            address,
            word,
        )
    }

    fn read(&self, address: Word<SIZE>) -> (r: Result<u8, Error<SIZE>>) {
        let a = address.value();
        if (a as usize) < self.inner.len() {
            Ok(self.inner[a as usize])
        } else {
            Ok(0)
        }
    }

    fn write(&mut self, address: Word<SIZE>, byte: u8) -> (r: Result<(), Error<SIZE>>) {
        let a = address.value();
        let ghost before = self@;
        while self.inner.len() <= a as usize
            invariant
                self@ == before,
                (a as int) < SIZE,
            decreases a + 1 - self.inner@.len(),
        {
            self.inner.push(0);
            assert(self@ =~= before);
        }
        self.inner.set(a as usize, byte);
        assert(self@ =~= before.update(a as int, byte));
        Ok(())
    }

    fn read_word(&self, address: Word<SIZE>) -> (r: Result<u16, Error<SIZE>>) {
        let first = self.read(address)?;
        let next = address.next()?;
        let second = self.read(next)?;
        Ok(first as u16 + second as u16 * 256)
    }

    fn write_word(&mut self, address: Word<SIZE>, word: u16) -> (r: Result<(), Error<SIZE>>) {
        let lower = (word % 256) as u8;
        let upper = (word / 256) as u8;
        self.write(address, lower)?;
        let next = address.next()?;
        self.write(next, upper)
    }
}

} // verus!
