//! Fixed-size memories of the console: each a run of bytes, all zero at first.
use vstd::prelude::*;

use super::{BG_MEMORY, SPRITE_MEMORY, TILE_MEMORY};
use crate::memory::{Addressable, Error};
use crate::word::Word;

verus! {

/// `len` zero bytes, with `init` written at the start.
fn filled(init: &[u8], len: usize) -> (v: Vec<u8>)
    requires
        init@.len() <= len,
    ensures
        v@ == Seq::new(len as nat, |i: int| if i < init@.len() { init@[i] } else { 0u8 }),
{
    let mut v: Vec<u8> = Vec::with_capacity(len);
    let mut i: usize = 0;
    while i < len
        invariant
            i <= len,
            init@.len() <= len,
            v@ == Seq::new(i as nat, |j: int| if j < init@.len() { init@[j] } else { 0u8 }),
        decreases len - i,
    {
        if i < init.len() {
            v.push(init[i]);
        } else {
            v.push(0);
        }
        i = i + 1;
    }
    v
}

/// The tiles of the console, filled from a ROM's sprites.
#[derive(Debug)]
pub struct TileMemory {
    inner: Vec<u8>,
}

impl View for TileMemory {
    type V = Seq<u8>;

    closed spec fn view(&self) -> Seq<u8> {
        self.inner@
    }
}

impl TileMemory {
    /// Tile memory that starts with `sprites`, zero after them.
    pub fn new(sprites: &[u8]) -> (m: Self)
        requires
            sprites@.len() <= TILE_MEMORY,
        ensures
            m@ == Seq::new(TILE_MEMORY as nat, |i: int| if i < sprites@.len() { sprites@[i] } else { 0u8 }),
    {
        TileMemory { inner: filled(sprites, TILE_MEMORY) }
    }

    /// The byte at `address`, or `None` past the end.
    pub fn read(&self, address: u16) -> (r: Option<u8>)
        ensures
            r == (if (address as int) < self@.len() { Some(self@[address as int]) } else { None::<u8> }),
    {
        if (address as usize) < self.inner.len() {
            Some(self.inner[address as usize])
        } else {
            None
        }
    }

    /// Stores `byte` at `address`.
    pub fn write(&mut self, address: u16, byte: u8)
        requires
            (address as int) < old(self)@.len(),
        ensures
            final(self)@ == old(self)@.update(address as int, byte),
    {
        self.inner.set(address as usize, byte);
    }
}

/// The sprite table of the console.
#[derive(Debug)]
pub struct SpriteMemory {
    memory: Vec<u8>,
}

impl View for SpriteMemory {
    type V = Seq<u8>;

    closed spec fn view(&self) -> Seq<u8> {
        self.memory@
    }
}

impl SpriteMemory {
    /// Sprite memory, all zero.
    pub fn new() -> (m: Self)
        ensures
            m@ == Seq::new(SPRITE_MEMORY as nat, |i: int| 0u8),
    {
        let empty: [u8; 0] = [];
        let memory = filled(&empty, SPRITE_MEMORY);
        assert(memory@ =~= Seq::new(SPRITE_MEMORY as nat, |i: int| 0u8));
        SpriteMemory { memory }
    }

    /// The byte at `address`.
    pub fn read(&self, address: u16) -> (b: u8)
        requires
            (address as int) < self@.len(),
        ensures
            b == self@[address as int],
    {
        self.memory[address as usize]
    }

    /// Stores `byte` at `address`.
    pub fn write(&mut self, address: u16, byte: u8)
        requires
            (address as int) < old(self)@.len(),
        ensures
            final(self)@ == old(self)@.update(address as int, byte),
    {
        self.memory.set(address as usize, byte);
    }
}

/// The background of the console.
#[derive(Debug)]
pub struct BackgroundMemory {
    memory: Vec<u8>,
}

impl View for BackgroundMemory {
    type V = Seq<u8>;

    closed spec fn view(&self) -> Seq<u8> {
        self.memory@
    }
}

impl BackgroundMemory {
    /// Background memory, all zero.
    pub fn new() -> (m: Self)
        ensures
            m@ == Seq::new(BG_MEMORY as nat, |i: int| 0u8),
    {
        let empty: [u8; 0] = [];
        let memory = filled(&empty, BG_MEMORY);
        assert(memory@ =~= Seq::new(BG_MEMORY as nat, |i: int| 0u8));
        BackgroundMemory { memory }
    }

    /// The byte at `address`.
    pub fn read(&self, address: u16) -> (b: u8)
        requires
            (address as int) < self@.len(),
        ensures
            b == self@[address as int],
    {
        self.memory[address as usize]
    }

    /// Stores `byte` at `address`.
    pub fn write(&mut self, address: u16, byte: u8)
        requires
            (address as int) < old(self)@.len(),
        ensures
            final(self)@ == old(self)@.update(address as int, byte),
    {
        self.memory.set(address as usize, byte);
    }
}

/// Bytes of program memory and of stack memory.
pub const KB16: usize = 16384;

/// The program memory of the console: sixteen KiB, all zero at first.
#[derive(Debug)]
pub struct ProgramMemory {
    memory: Vec<u8>,
}

impl View for ProgramMemory {
    type V = Seq<u8>;

    closed spec fn view(&self) -> Seq<u8> {
        self.memory@
    }
}

impl ProgramMemory {
    /// Program memory, all zero.
    pub fn new() -> (m: Self)
        ensures
            m@ == Seq::new(KB16 as nat, |i: int| 0u8),
    {
        let empty: [u8; 0] = [];
        let memory = filled(&empty, KB16);
        assert(memory@ =~= Seq::new(KB16 as nat, |i: int| 0u8));
        ProgramMemory { memory }
    }

    /// The byte at `address`.
    pub fn read(&self, address: u16) -> (b: u8)
        requires
            (address as int) < self@.len(),
        ensures
            b == self@[address as int],
    {
        self.memory[address as usize]
    }

    /// Stores `byte` at `address`.
    pub fn write(&mut self, address: u16, byte: u8)
        requires
            (address as int) < old(self)@.len(),
        ensures
            final(self)@ == old(self)@.update(address as int, byte),
    {
        self.memory.set(address as usize, byte);
    }
}

/// The stack memory of the console: sixteen KiB, all zero at first.
#[derive(Debug)]
pub struct StackMemory {
    memory: Vec<u8>,
}

impl View for StackMemory {
    type V = Seq<u8>;

    closed spec fn view(&self) -> Seq<u8> {
        self.memory@
    }
}

impl StackMemory {
    /// Stack memory, all zero.
    pub fn new() -> (m: Self)
        ensures
            m@ == Seq::new(KB16 as nat, |i: int| 0u8),
    {
        let empty: [u8; 0] = [];
        let memory = filled(&empty, KB16);
        assert(memory@ =~= Seq::new(KB16 as nat, |i: int| 0u8));
        StackMemory { memory }
    }

    /// The byte at `address`.
    pub fn read(&self, address: u16) -> (b: u8)
        requires
            (address as int) < self@.len(),
        ensures
            b == self@[address as int],
    {
        self.memory[address as usize]
    }

    /// Stores `byte` at `address`.
    pub fn write(&mut self, address: u16, byte: u8)
        requires
            (address as int) < old(self)@.len(),
        ensures
            final(self)@ == old(self)@.update(address as int, byte),
    {
        self.memory.set(address as usize, byte);
    }
}

/// A device of `SIZE` bytes that keeps the bytes written to it one by one
/// and ignores words: a word written is dropped, and a word read is zero.
#[derive(Debug)]
pub struct OutputDevice<const SIZE: usize> {
    memory: Vec<u8>,
}

impl<const SIZE: usize> View for OutputDevice<SIZE> {
    type V = Seq<u8>;

    closed spec fn view(&self) -> Seq<u8> {
        self.memory@
    }
}

impl<const SIZE: usize> OutputDevice<SIZE> {
    /// The device with every byte zero.
    pub fn new() -> (m: Self)
        ensures
            m@ == Seq::new(SIZE as nat, |i: int| 0u8),
    {
        let empty: [u8; 0] = [];
        let memory = filled(&empty, SIZE);
        assert(memory@ =~= Seq::new(SIZE as nat, |i: int| 0u8));
        OutputDevice { memory }
    }
}

impl<const SIZE: usize> Addressable<SIZE> for OutputDevice<SIZE> {
    open spec fn model_read(mem: Seq<u8>, address: u16) -> Result<u8, Error<SIZE>> {
        if (address as int) < mem.len() {
            Ok(mem[address as int])
        } else {
            Err(Error::InvalidAddress(address))
        }
    }

    open spec fn model_write(mem: Seq<u8>, address: u16, byte: u8) -> (Seq<u8>, Result<(), Error<SIZE>>) {
        if (address as int) < mem.len() {
            (mem.update(address as int, byte), Ok(()))
        } else {
            (mem, Err(Error::InvalidAddress(address)))
        }
    }

    open spec fn model_read_word(mem: Seq<u8>, address: u16) -> Result<u16, Error<SIZE>> {
        Ok(0)
    }

    open spec fn model_write_word(mem: Seq<u8>, address: u16, word: u16) -> (Seq<u8>, Result<(), Error<SIZE>>) {
        (mem, Ok(()))
    }

    fn read(&self, address: Word<SIZE>) -> (r: Result<u8, Error<SIZE>>) {
        let a = address.value();
        if (a as usize) < self.memory.len() {
            Ok(self.memory[a as usize])
        } else {
            Err(Error::InvalidAddress(a))
        }
    }

    fn write(&mut self, address: Word<SIZE>, byte: u8) -> (r: Result<(), Error<SIZE>>) {
        let a = address.value();
        if (a as usize) < self.memory.len() {
            self.memory.set(a as usize, byte);
            Ok(())
        } else {
            Err(Error::InvalidAddress(a))
        }
    }

    fn read_word(&self, address: Word<SIZE>) -> (r: Result<u16, Error<SIZE>>) {
        Ok(0)
    }

    fn write_word(&mut self, address: Word<SIZE>, word: u16) -> (r: Result<(), Error<SIZE>>) {
        Ok(())
    }
}

} // verus!
