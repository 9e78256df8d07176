//! ROM files: a header that names the game and says where its code and its
//! sprites lie, then the data.
use vstd::prelude::*;

verus! {

/// A loaded ROM: its name and the bytes of its code and of its sprites.
#[derive(Debug)]
pub struct Rom<'rom> {
    pub name: &'rom [u8],
    pub code: &'rom [u8],
    pub sprites: &'rom [u8],
}

/// The little-endian word at `at`.
pub open spec fn le_word(rom: Seq<u8>, at: int) -> int {
    rom[at] + rom[at + 1] * 256
}

/// Where the code starts, and how long it is.
pub open spec fn code_offset(rom: Seq<u8>) -> int { le_word(rom, 0x44) }
pub open spec fn code_size(rom: Seq<u8>) -> int { le_word(rom, 0x46) }
/// Where the sprites start, and how long they are.
pub open spec fn sprites_offset(rom: Seq<u8>) -> int { le_word(rom, 0x48) }
pub open spec fn sprites_size(rom: Seq<u8>) -> int { le_word(rom, 0x4A) }

/// The length of the name: the bytes from position 5 up to the first zero.
pub open spec fn name_len(rom: Seq<u8>) -> int
    recommends
        exists|i: int| 5 <= i < rom.len() && rom[i] == 0,
{
    (choose|i: int| 5 <= i < rom.len() && rom[i] == 0 && forall|j: int| 5 <= j < i ==> rom[j] != 0) - 5
}

/// Whether a ROM file can be loaded: it is longer than 128 bytes, starts
/// with `AYA`, ends its name with a zero, and holds the code and sprites its
/// header speaks of.
pub open spec fn loadable(rom: Seq<u8>) -> bool {
    &&& rom.len() > 128
    &&& rom[0] == 65 && rom[1] == 89 && rom[2] == 65
    &&& exists|i: int| 5 <= i < rom.len() && rom[i] == 0
    &&& code_offset(rom) + code_size(rom) <= rom.len()
    &&& sprites_offset(rom) + sprites_size(rom) <= rom.len()
}

/// The little-endian word at `at`.
fn read_le(rom: &[u8], at: usize) -> (w: usize)
    requires
        at + 1 < rom@.len(),
    ensures
        w == le_word(rom@, at as int),
{
    rom[at] as usize + rom[at + 1] as usize * 256
}

/// Loads a ROM file (see `loadable`): its name, code and sprites.
pub fn load_from_file(rom: &[u8]) -> (r: Rom)
    requires
        loadable(rom@),
    ensures
        r.name@ == rom@.subrange(5, 5 + name_len(rom@)),
        r.code@ == rom@.subrange(code_offset(rom@), code_offset(rom@) + code_size(rom@)),
        r.sprites@ == rom@.subrange(sprites_offset(rom@), sprites_offset(rom@) + sprites_size(rom@)),
{
    let mut name_end: usize = 5;
    while name_end < rom.len() && rom[name_end] != 0
        invariant
            5 <= name_end <= rom@.len(),
            forall|j: int| 5 <= j < name_end ==> rom@[j] != 0,
            exists|i: int| 5 <= i < rom@.len() && rom@[i] == 0,
        decreases rom@.len() - name_end,
    {
        name_end = name_end + 1;
    }
    proof {
        let w = choose|i: int| 5 <= i < rom@.len() && rom@[i] == 0 && forall|j: int| 5 <= j < i ==> rom@[j] != 0;
        assert(5 <= name_end < rom@.len() && rom@[name_end as int] == 0 && forall|j: int| 5 <= j < name_end ==> rom@[j] != 0);
        assert(w == name_end) by {
            if w < name_end {
                assert(rom@[w] != 0);
            } else if w > name_end {
                assert(rom@[name_end as int] != 0);
            }
        }
    }
    let name = &rom[5..name_end];
    let code_offset = read_le(rom, 0x44);
    let code_size = read_le(rom, 0x46);
    let sprites_offset = read_le(rom, 0x48);
    let sprites_size = read_le(rom, 0x4A);
    let code = &rom[code_offset..code_offset + code_size];
    let sprites = &rom[sprites_offset..sprites_offset + sprites_size];
    Rom { name, code, sprites }
}

/// Whether a ROM file can be loaded (see `loadable`).
pub fn is_loadable(rom: &[u8]) -> (b: bool)
    ensures
        b == loadable(rom@),
{
    if rom.len() <= 128 {
        return false;
    }
    if rom[0] != 65 || rom[1] != 89 || rom[2] != 65 {
        return false;
    }
    let mut i: usize = 5;
    while i < rom.len() && rom[i] != 0
        invariant
            5 <= i <= rom@.len(),
            forall|j: int| 5 <= j < i ==> rom@[j] != 0,
        decreases rom@.len() - i,
    {
        i = i + 1;
    }
    if i == rom.len() {
        proof {
            assert forall|j: int| 5 <= j < rom@.len() implies rom@[j] != 0 by {}
        }
        return false;
    }
    let code_offset = read_le(rom, 0x44);
    let code_size = read_le(rom, 0x46);
    let sprites_offset = read_le(rom, 0x48);
    let sprites_size = read_le(rom, 0x4A);
    code_offset + code_size <= rom.len() && sprites_offset + sprites_size <= rom.len()
}

} // verus!
