use vstd::prelude::*;

use super::{Addressable, Error, high_byte, low_byte};
use crate::word::Word;

verus! {

/// The command carried by the high byte of a word written to the output device.
#[derive(Debug, Clone, Copy, PartialEq, Eq, Structural)]
pub enum OutputCommand {
    Plain,
    ClearScreen,
}

impl OutputCommand {
    /// `0xff` clears the screen; every other byte is a plain write.
    pub open spec fn spec_from(value: u8) -> OutputCommand {
        if value == 0xff {
            OutputCommand::ClearScreen
        } else {
            OutputCommand::Plain
        }
    }

    /// The command of a byte.
    pub fn from(value: u8) -> (c: OutputCommand)
        ensures
            c == Self::spec_from(value),
    {
        if value == 0xff {
            OutputCommand::ClearScreen
        } else {
            OutputCommand::Plain
        }
    }
}

/// One character placed on a text screen of sixteen columns, 1-based.
#[derive(Debug, Clone, Copy, PartialEq, Eq, Structural)]
pub struct OutputEvent {
    pub command: OutputCommand,
    pub x: u16,
    pub y: u16,
    pub ch: u8,
}

/// The event that a word written at `address` stands for.
pub open spec fn output_event(address: u16, word: u16) -> OutputEvent {
    OutputEvent {
        command: OutputCommand::spec_from(high_byte(word)),
        x: (address % 16 + 1) as u16,
        y: (address / 16 + 1) as u16,
        ch: low_byte(word),
    }
}

/// A text output device: bytes written to it are dropped, reads give zero, and
/// each word written places a character on the screen. The device keeps the
/// screen events in order; whoever owns the terminal draws them.
#[derive(Debug)]
pub struct OutputMemory<const SIZE: usize> {
    events: Vec<OutputEvent>,
}

impl<const SIZE: usize> View for OutputMemory<SIZE> {
    type V = Seq<OutputEvent>;

    closed spec fn view(&self) -> Seq<OutputEvent> {
        self.events@
    }
}

impl<const SIZE: usize> OutputMemory<SIZE> {
    /// A device with no events yet.
    pub fn new() -> (m: Self)
        ensures
            m@ == Seq::<OutputEvent>::empty(),
    {
        OutputMemory { events: Vec::new() }
    }

    /// Hands out the events written so far, leaving none behind.
    pub fn take_events(&mut self) -> (events: Vec<OutputEvent>)
        ensures
            events@ == old(self)@,
            final(self)@ == Seq::<OutputEvent>::empty(),
    {
        let mut events: Vec<OutputEvent> = Vec::new();
        std::mem::swap(&mut events, &mut self.events);
        events
    }
}

impl<const SIZE: usize> Addressable<SIZE> for OutputMemory<SIZE> {
    open spec fn model_read(mem: Seq<OutputEvent>, address: u16) -> Result<u8, Error<SIZE>> {
        Ok(0)
    }

    open spec fn model_write(mem: Seq<OutputEvent>, address: u16, byte: u8) -> (Seq<OutputEvent>, Result<(), Error<SIZE>>) {
        (mem, Ok(()))
    }

    open spec fn model_read_word(mem: Seq<OutputEvent>, address: u16) -> Result<u16, Error<SIZE>> {
        if address + 1 < SIZE && address + 1 <= u16::MAX {
            Ok(0)
        } else {
            Err(Error::StackOverflow)
        }
    }

    open spec fn model_write_word(mem: Seq<OutputEvent>, address: u16, word: u16) -> (Seq<OutputEvent>, Result<(), Error<SIZE>>) {
        (mem.push(output_event(address, word)), Ok(()))
    }

    fn read(&self, address: Word<SIZE>) -> (r: Result<u8, Error<SIZE>>) {
        Ok(0)
    }

    fn write(&mut self, address: Word<SIZE>, byte: u8) -> (r: Result<(), Error<SIZE>>) {
        Ok(())
    }

    fn read_word(&self, address: Word<SIZE>) -> (r: Result<u16, Error<SIZE>>) {
        let first = self.read(address)?;
        let next = address.next()?;
        let second = self.read(next)?;
        Ok(first as u16 + second as u16 * 256)
    }

    fn write_word(&mut self, address: Word<SIZE>, word: u16) -> (r: Result<(), Error<SIZE>>) {
        let ch = (word % 256) as u8;
        let command = OutputCommand::from((word / 256) as u8);
        let a = address.value();
        let x = a % 16 + 1;
        let y = a / 16 + 1;
        self.events.push(OutputEvent { command, x, y, ch });
        Ok(())
    }
}

} // verus!
