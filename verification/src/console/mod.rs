//! The console that runs the machine: the layout of its memory, the devices
//! placed on it, its input keys, and the ROM files it loads.
pub mod devices;
pub mod input;
pub mod rom_loader;
pub mod screen;

use vstd::prelude::*;

use crate::memory::{MappableDevice, MappingMode, MemoryMapper, RegionMemory, RegionView};
use rom_loader::Rom;

verus! {

/// The size of the console's address space.
pub const ADDRESS_SPACE: usize = 0x10000;

/// Bytes of tile memory.
pub const TILE_MEMORY: usize = 8192;
/// Bytes of sprite memory.
pub const SPRITE_MEMORY: usize = 640;
/// Bytes of program memory.
pub const CODE_MEMORY: usize = 16384;
/// Bytes of background memory.
pub const BG_MEMORY: usize = 420;
/// Bytes of interface memory.
pub const INTERFACE_MEMORY: usize = 420;
/// Bytes of the interrupt table.
pub const INTERRUPT_MEMORY: usize = 16;
/// Bytes of input memory.
pub const INPUT_MEMORY: usize = 1;
/// Bytes of stack memory.
pub const STACK_MEMORY: usize = 8192;

/// First and last address of the tile memory.
pub const TILE_MEM_START: u16 = 0x0000;
pub const TILE_MEM_END: u16 = 0x1FFF;
/// First and last address of the sprite memory.
pub const SPRITE_MEM_START: u16 = 0x2000;
pub const SPRITE_MEM_END: u16 = 0x227F;
/// First and last address of the program memory.
pub const CODE_MEM_START: u16 = 0x2280;
pub const CODE_MEM_END: u16 = 0x627F;
/// First and last address of the background memory.
pub const BG_MEM_START: u16 = 0x6280;
pub const BG_MEM_END: u16 = 0x6423;
/// First and last address of the foreground memory.
pub const FG_MEM_START: u16 = 0x6424;
pub const FG_MEM_END: u16 = 0x65C7;
/// First and last address of the interface memory.
pub const UI_MEM_START: u16 = 0x65C8;
pub const UI_MEM_END: u16 = 0x676B;
/// First and last address of the interrupt table.
pub const INTERRUPT_MEM_START: u16 = 0x676C;
pub const INTERRUPT_MEM_END: u16 = 0x677B;
/// The address of the input byte.
pub const INPUT_MEM_START: u16 = 0x677C;
pub const INPUT_MEM_END: u16 = 0x677C;
/// First and last address of the stack memory.
pub const STACK_MEM_START: u16 = 0xE000;
pub const STACK_MEM_END: u16 = 0xFFFF;

/// The interrupts of the console.
#[derive(Debug, PartialEq, Eq, Clone, Copy, Structural)]
pub enum Interrupt {
    AfterFrame,
}

impl Interrupt {
    /// The number of the interrupt in the interrupt table.
    pub fn number(self) -> (n: u16)
        ensures
            n == 0,
    {
        match self {
            Interrupt::AfterFrame => 0,
        }
    }
}

/// A region of plain memory of `len` bytes, all zero but `init` at its start.
pub open spec fn linear_region(init: Seq<u8>, len: nat, start: u16, end: u16, mode: MappingMode) -> RegionView {
    RegionView {
        device: crate::memory::DeviceView::Region(Seq::new(len, |i: int| if i < init.len() { init[i] } else { 0u8 })),
        start,
        end,
        mode,
    }
}

/// The memory of the console as it starts: the regions from the last mapped
/// (the stack) to the first (the tiles, which hold the sprites of the ROM).
pub open spec fn console_memory(sprites: Seq<u8>) -> Seq<RegionView> {
    seq![
        linear_region(Seq::empty(), STACK_MEMORY as nat, STACK_MEM_START, STACK_MEM_END, MappingMode::Remap),
        linear_region(Seq::empty(), INPUT_MEMORY as nat, INPUT_MEM_START, INPUT_MEM_END, MappingMode::Remap),
        linear_region(Seq::empty(), INTERRUPT_MEMORY as nat, INTERRUPT_MEM_START, INTERRUPT_MEM_END, MappingMode::Remap),
        linear_region(Seq::empty(), INTERFACE_MEMORY as nat, UI_MEM_START, UI_MEM_END, MappingMode::Remap),
        linear_region(Seq::empty(), BG_MEMORY as nat, BG_MEM_START, (BG_MEM_END + 1) as u16, MappingMode::Remap),
        linear_region(Seq::empty(), CODE_MEMORY as nat, CODE_MEM_START, CODE_MEM_END, MappingMode::Direct),
        linear_region(Seq::empty(), SPRITE_MEMORY as nat, SPRITE_MEM_START, SPRITE_MEM_END, MappingMode::Remap),
        linear_region(sprites, TILE_MEMORY as nat, TILE_MEM_START, TILE_MEM_END, MappingMode::Remap),
    ]
}

/// Maps a plain memory of `len` bytes, `init` at its start, on `start..=end`.
fn map_linear(mapper: &mut MemoryMapper<ADDRESS_SPACE>, init: &[u8], len: usize, start: u16, end: u16, mode: MappingMode)
    requires
        init@.len() <= len,
    ensures
        final(mapper)@ == seq![linear_region(init@, len as nat, start, end, mode)] + old(mapper)@,
{
    let memory = RegionMemory::<ADDRESS_SPACE>::from_bytes(init, len);
    let _ = mapper.map(MappableDevice::from_region(memory), start, end, mode);
    assert(final(mapper)@ =~= seq![linear_region(init@, len as nat, start, end, mode)] + old(mapper)@) by {
        assert(linear_region(init@, len as nat, start, end, mode).device == crate::memory::DeviceView::Region(
            Seq::new(len as nat, |i: int| if i < init@.len() { init@[i] } else { 0u8 })));
    }
}

/// Sets up the memory of the console for a ROM: tiles (holding the ROM's
/// sprites), sprites, program, background, interface, interrupt table,
/// input and stack, each on its range of addresses.
pub fn setup_memory(rom: &Rom) -> (m: MemoryMapper<ADDRESS_SPACE>)
    requires
        rom.sprites@.len() <= TILE_MEMORY,
    ensures
        m@ == console_memory(rom.sprites@),
{
    let mut memory_mapper = MemoryMapper::new();
    let empty: [u8; 0] = [];
    assert(empty@ =~= Seq::<u8>::empty());
    map_linear(&mut memory_mapper, rom.sprites, TILE_MEMORY, TILE_MEM_START, TILE_MEM_END, MappingMode::Remap);
    map_linear(&mut memory_mapper, &empty, SPRITE_MEMORY, SPRITE_MEM_START, SPRITE_MEM_END, MappingMode::Remap);
    map_linear(&mut memory_mapper, &empty, CODE_MEMORY, CODE_MEM_START, CODE_MEM_END, MappingMode::Direct);
    map_linear(&mut memory_mapper, &empty, BG_MEMORY, BG_MEM_START, BG_MEM_END + 1, MappingMode::Remap);
    map_linear(&mut memory_mapper, &empty, INTERFACE_MEMORY, UI_MEM_START, UI_MEM_END, MappingMode::Remap);
    map_linear(&mut memory_mapper, &empty, INTERRUPT_MEMORY, INTERRUPT_MEM_START, INTERRUPT_MEM_END, MappingMode::Remap);
    map_linear(&mut memory_mapper, &empty, INPUT_MEMORY, INPUT_MEM_START, INPUT_MEM_END, MappingMode::Remap);
    map_linear(&mut memory_mapper, &empty, STACK_MEMORY, STACK_MEM_START, STACK_MEM_END, MappingMode::Remap);
    assert(memory_mapper@ =~= console_memory(rom.sprites@));
    memory_mapper
}

/// The regions of the console's memory do not overlap: each lies wholly
/// below every region mapped before it.
pub proof fn lemma_console_regions_disjoint(sprites: Seq<u8>)
    ensures
        console_memory(sprites).len() == 8,
        forall|i: int, j: int|
            0 <= i < j < 8 ==> #[trigger] console_memory(sprites)[j].end < #[trigger] console_memory(sprites)[i].start,
{
    let m = console_memory(sprites);
    assert(m[0].start == STACK_MEM_START && m[1].start == INPUT_MEM_START && m[2].start == INTERRUPT_MEM_START);
    assert(m[3].start == UI_MEM_START && m[4].start == BG_MEM_START && m[5].start == CODE_MEM_START);
    assert(m[6].start == SPRITE_MEM_START && m[7].start == TILE_MEM_START);
    assert(m[1].end == INPUT_MEM_END && m[2].end == INTERRUPT_MEM_END && m[3].end == UI_MEM_END);
    assert(m[4].end == BG_MEM_END + 1 && m[5].end == CODE_MEM_END && m[6].end == SPRITE_MEM_END);
    assert(m[7].end == TILE_MEM_END);
}

} // verus!
