//! The console's keys, one bit of the input byte each.
use vstd::prelude::*;

verus! {

/// Which keys are down: one bit per key.
#[derive(Debug, Clone, Copy, PartialEq, Eq, Structural)]
pub struct KeyStatus(u8);

impl KeyStatus {
    /// The bits of the keys.
    pub closed spec fn spec_bits(self) -> u8 {
        self.0
    }

    /// No key down.
    pub fn reset() -> (k: Self)
        ensures
            k.spec_bits() == 0,
    {
        KeyStatus(0)
    }

    /// Marks key `bit` as down.
    pub fn mask_on(&mut self, bit: u8)
        requires
            bit < 8,
        ensures
            final(self).spec_bits() == old(self).spec_bits() | (1u8 << bit),
    {
        self.0 = self.0 | (1u8 << bit);
    }

    /// The input byte.
    pub fn bits(&self) -> (b: u8)
        ensures
            b == self.spec_bits(),
    {
        self.0
    }
}

/// A source of key presses; each key marks its own bit.
pub trait Input {
    /// The keys down now.
    fn poll(&self) -> KeyStatus;

    /// The left key: bit 7.
    fn key_left_pressed(&self, status: &mut KeyStatus)
        ensures
            final(status).spec_bits() == old(status).spec_bits() | (1u8 << 7u8),
    {
        status.mask_on(7);
    }

    /// The down key: bit 6.
    fn key_down_pressed(&self, status: &mut KeyStatus)
        ensures
            final(status).spec_bits() == old(status).spec_bits() | (1u8 << 6u8),
    {
        status.mask_on(6);
    }

    /// The up key: bit 5.
    fn key_up_pressed(&self, status: &mut KeyStatus)
        ensures
            final(status).spec_bits() == old(status).spec_bits() | (1u8 << 5u8),
    {
        status.mask_on(5);
    }

    /// The right key: bit 4.
    fn key_right_pressed(&self, status: &mut KeyStatus)
        ensures
            final(status).spec_bits() == old(status).spec_bits() | (1u8 << 4u8),
    {
        status.mask_on(4);
    }

    /// The main key: bit 3.
    fn key_main_pressed(&self, status: &mut KeyStatus)
        ensures
            final(status).spec_bits() == old(status).spec_bits() | (1u8 << 3u8),
    {
        status.mask_on(3);
    }

    /// The secondary key: bit 2.
    fn key_secondary_pressed(&self, status: &mut KeyStatus)
        ensures
            final(status).spec_bits() == old(status).spec_bits() | (1u8 << 2u8),
    {
        status.mask_on(2);
    }

    /// The pause key: bit 1.
    fn key_pause_pressed(&self, status: &mut KeyStatus)
        ensures
            final(status).spec_bits() == old(status).spec_bits() | (1u8 << 1u8),
    {
        status.mask_on(1);
    }

    /// The select key: bit 0.
    fn key_select_pressed(&self, status: &mut KeyStatus)
        ensures
            final(status).spec_bits() == old(status).spec_bits() | (1u8 << 0u8),
    {
        status.mask_on(0);
    }
}

/// The keys of the keyboard that the console reads, each down or not, as
/// the window reports them.
#[derive(Debug, Clone, Copy, PartialEq, Eq, Structural)]
pub struct Keyboard {
    pub a: bool,
    pub left: bool,
    pub s: bool,
    pub down: bool,
    pub w: bool,
    pub up: bool,
    pub d: bool,
    pub right: bool,
    pub space: bool,
    pub c: bool,
    pub escape: bool,
    pub tab: bool,
}

/// The bit of key `bit` where `down`, else nothing.
pub open spec fn key_bit(down: bool, bit: u8) -> u8 {
    if down {
        1u8 << bit
    } else {
        0u8
    }
}

/// The input byte of a keyboard: left (`A` or the left arrow) bit 7, down
/// (`S` or the down arrow) bit 6, up (`W` or the up arrow) bit 5, right (`D`
/// or the right arrow) bit 4, main (space) bit 3, secondary (`C`) bit 2,
/// pause (escape) bit 1 and select (tab) bit 0.
pub open spec fn keyboard_bits(k: Keyboard) -> u8 {
    0u8 | key_bit(k.a || k.left, 7) | key_bit(k.s || k.down, 6) | key_bit(k.w || k.up, 5) | key_bit(k.d || k.right, 4)
        | key_bit(k.space, 3) | key_bit(k.c, 2) | key_bit(k.escape, 1) | key_bit(k.tab, 0)
}

/// The console's input from the keyboard of its window.
pub struct RaylibInput {
    pub keys: Keyboard,
}

impl RaylibInput {
    /// The bits after `bit` was marked where `down`.
    fn mark(&self, status: &mut KeyStatus, down: bool, bit: u8)
        requires
            bit < 8,
        ensures
            final(status).spec_bits() == old(status).spec_bits() | key_bit(down, bit),
    {
        let before = status.bits();
        if down {
            status.mask_on(bit);
        } else {
            assert(before | 0u8 == before) by (bit_vector);
        }
    }
}

impl Input for RaylibInput {
    /// The keys down: see `keyboard_bits`.
    fn poll(&self) -> (k: KeyStatus)
        ensures
            k.spec_bits() == keyboard_bits(self.keys),
    {
        let k = self.keys;
        let mut status = KeyStatus::reset();
        self.mark(&mut status, k.a || k.left, 7);
        self.mark(&mut status, k.s || k.down, 6);
        self.mark(&mut status, k.w || k.up, 5);
        self.mark(&mut status, k.d || k.right, 4);
        self.mark(&mut status, k.space, 3);
        self.mark(&mut status, k.c, 2);
        self.mark(&mut status, k.escape, 1);
        self.mark(&mut status, k.tab, 0);
        status
    }
}

} // verus!
