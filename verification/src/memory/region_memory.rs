use vstd::prelude::*;

use super::{Addressable, Error, read_word_by_bytes, write_word_by_bytes};
use crate::word::Word;

verus! {

/// Plain random-access memory of any number of bytes, placed in an address
/// space of `SIZE` bytes: the memories of the console's regions. An address
/// past its bytes is refused.
#[derive(Debug)]
pub struct RegionMemory<const SIZE: usize> {
    inner: Vec<u8>,
}

impl<const SIZE: usize> View for RegionMemory<SIZE> {
    type V = Seq<u8>;

    closed spec fn view(&self) -> Seq<u8> {
        self.inner@
    }
}

impl<const SIZE: usize> RegionMemory<SIZE> {
    /// A memory of `len` zero bytes, for a device smaller than the machine.
    pub fn with_len(len: usize) -> (m: Self)
        ensures
            m@ == Seq::new(len as nat, |i: int| 0u8),
    {
        let mut inner: Vec<u8> = Vec::with_capacity(len);
        let mut i: usize = 0;
        while i < len
            invariant
                i <= len,
                inner@ == Seq::new(i as nat, |j: int| 0u8),
            decreases len - i,
        {
            inner.push(0);
            i = i + 1;
        }
        RegionMemory { inner }
    }

    /// A memory of `len` bytes that starts with `bytes` and is zero after them.
    pub fn from_bytes(bytes: &[u8], len: usize) -> (m: Self)
        requires
            bytes@.len() <= len,
        ensures
            m@ == Seq::new(len as nat, |i: int| if i < bytes@.len() { bytes@[i] } else { 0u8 }),
    {
        let mut inner: Vec<u8> = Vec::with_capacity(len);
        let mut i: usize = 0;
        while i < len
            invariant
                i <= len,
                bytes@.len() <= len,
                inner@ == Seq::new(i as nat, |j: int| if j < bytes@.len() { bytes@[j] } else { 0u8 }),
            decreases len - i,
        {
            if i < bytes.len() {
                inner.push(bytes[i]);
            } else {
                inner.push(0);
            }
            i = i + 1;
        }
        RegionMemory { inner }
    }

    /// The number of bytes of this memory.
    pub fn len(&self) -> (n: usize)
        ensures
            n == self@.len(),
    {
        self.inner.len()
    }
}

impl<const SIZE: usize> Addressable<SIZE> for RegionMemory<SIZE> {
    open spec fn model_read(mem: Seq<u8>, address: u16) -> Result<u8, Error<SIZE>> {
        if (address as int) < mem.len() {
            Ok(mem[address as int])
        } else {
            Err(Error::InvalidAddress(address))
        }
    }

    open spec fn model_write(mem: Seq<u8>, address: u16, byte: u8) -> (Seq<u8>, Result<(), Error<SIZE>>) {
        if (address as int) < mem.len() {
            (mem.update(address as int, byte), Ok(()))
        } else {
            (mem, Err(Error::InvalidAddress(address)))
        }
    }

    open spec fn model_read_word(mem: Seq<u8>, address: u16) -> Result<u16, Error<SIZE>> {
        read_word_by_bytes::<SIZE>(|a: u16| Self::model_read(mem, a), address)
    }

    open spec fn model_write_word(mem: Seq<u8>, address: u16, word: u16) -> (Seq<u8>, Result<(), Error<SIZE>>) {
        write_word_by_bytes::<SIZE, Seq<u8>>(
            |m: Seq<u8>, a: u16, b: u8| Self::model_write(m, a, b),
            mem,
            address,
            word,
        )
    }

    fn read(&self, address: Word<SIZE>) -> (r: Result<u8, Error<SIZE>>) {
        let a = address.value();
        if (a as usize) < self.inner.len() {
            Ok(self.inner[a as usize])
        } else {
            Err(Error::InvalidAddress(a))
        }
    }

    fn write(&mut self, address: Word<SIZE>, byte: u8) -> (r: Result<(), Error<SIZE>>) {
        let a = address.value();
        if (a as usize) < self.inner.len() {
            self.inner.set(a as usize, byte);
            Ok(())
        } else {
            Err(Error::InvalidAddress(a))
        }
    }

    fn read_word(&self, address: Word<SIZE>) -> (r: Result<u16, Error<SIZE>>) {
        let first = self.read(address)?;
        let next = address.next()?;
        let second = self.read(next)?;
        Ok(first as u16 + second as u16 * 256)
    }

    fn write_word(&mut self, address: Word<SIZE>, word: u16) -> (r: Result<(), Error<SIZE>>) {
        let lower = (word % 256) as u8;
        let upper = (word / 256) as u8;
        self.write(address, lower)?;
        let next = address.next()?;
        self.write(next, upper)
    }
}

} // verus!
