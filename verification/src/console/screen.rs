//! What the console shows: the pixels of each tile, and the tiles and sprites
//! a frame is drawn from, read from the console's memory. Whoever owns the
//! window draws them.
use vstd::prelude::*;

use super::{ADDRESS_SPACE, BG_MEMORY, BG_MEM_START, INTERFACE_MEMORY, SPRITE_MEM_START, TILE_MEM_START, UI_MEM_START};
use crate::memory::{Addressable, Error};
use crate::word::Word;

verus! {

/// Tiles in a row of the screen.
pub const TILES_WIDTH: u16 = 30;
/// Rows of tiles on the screen.
pub const TILES_HEIGHT: u16 = 14;
/// Bytes of a tile: two pixels a byte.
pub const BYTES_PER_TILE: u16 = 32;
/// Pixels of a tile, across and down.
pub const SPRITE_WIDTH: u16 = 8;
pub const SPRITE_HEIGHT: u16 = 8;
/// Sprites the console shows, and the bytes each takes.
pub const SPRITES: u16 = 40;
pub const SPRITE_BYTES: u16 = 16;

/// The colours of the console, red, green, blue and opacity; colour 0 is
/// transparent.
pub open spec fn palette_spec(i: int) -> Seq<u8> {
    if i == 0 { seq![0x00u8, 0x00u8, 0x00u8, 0x00u8] }
    else if i == 1 { seq![0x9du8, 0xc1u8, 0xc0u8, 0xffu8] }
    else if i == 2 { seq![0x52u8, 0x5bu8, 0x80u8, 0xffu8] }
    else if i == 3 { seq![0x31u8, 0x21u8, 0x39u8, 0xffu8] }
    else if i == 4 { seq![0x12u8, 0x0eu8, 0x1fu8, 0xffu8] }
    else if i == 5 { seq![0x28u8, 0x46u8, 0x46u8, 0xffu8] }
    else if i == 6 { seq![0x62u8, 0xabu8, 0x46u8, 0xffu8] }
    else if i == 7 { seq![0x95u8, 0x53u8, 0x3du8, 0xffu8] }
    else if i == 8 { seq![0x6au8, 0x24u8, 0x35u8, 0xffu8] }
    else if i == 9 { seq![0x65u8, 0x41u8, 0x47u8, 0xffu8] }
    else if i == 10 { seq![0xffu8, 0xf1u8, 0x69u8, 0xffu8] }
    else if i == 11 { seq![0xd7u8, 0x79u8, 0x3fu8, 0xffu8] }
    else if i == 12 { seq![0xabu8, 0x32u8, 0x29u8, 0xffu8] }
    else if i == 13 { seq![0x9eu8, 0x8fu8, 0x84u8, 0xffu8] }
    else if i == 14 { seq![0xe0u8, 0xb5u8, 0x6du8, 0xffu8] }
    else { seq![0xf6u8, 0x8bu8, 0x69u8, 0xffu8] }
}

/// Colour `i` of the palette (see `palette_spec`).
pub fn palette(i: u8) -> (c: [u8; 4])
    requires
        i < 16,
    ensures
        c@ == palette_spec(i as int),
{
    let c: [u8; 4] = match i {
        0 => [0x00, 0x00, 0x00, 0x00],
        1 => [0x9d, 0xc1, 0xc0, 0xff],
        2 => [0x52, 0x5b, 0x80, 0xff],
        3 => [0x31, 0x21, 0x39, 0xff],
        4 => [0x12, 0x0e, 0x1f, 0xff],
        5 => [0x28, 0x46, 0x46, 0xff],
        6 => [0x62, 0xab, 0x46, 0xff],
        7 => [0x95, 0x53, 0x3d, 0xff],
        8 => [0x6a, 0x24, 0x35, 0xff],
        9 => [0x65, 0x41, 0x47, 0xff],
        10 => [0xff, 0xf1, 0x69, 0xff],
        11 => [0xd7, 0x79, 0x3f, 0xff],
        12 => [0xab, 0x32, 0x29, 0xff],
        13 => [0x9e, 0x8f, 0x84, 0xff],
        14 => [0xe0, 0xb5, 0x6d, 0xff],
        _ => [0xf6, 0x8b, 0x69, 0xff],
    };
    assert(c@ =~= palette_spec(i as int));
    c
}

/// How a sprite is drawn.
#[derive(Debug, Clone, Copy, PartialEq, Eq, PartialOrd, Ord, Structural)]
pub enum TextureFlags {
    Normal,
    MirrorX,
    MirrorY,
}

/// The ways of drawing that a flags byte asks for: as it is where the byte
/// is zero; else mirrored across where bit 0 is set, and down where bit 1
/// is set.
pub open spec fn flags_spec(flags: u8) -> Seq<TextureFlags> {
    if flags == 0 {
        seq![TextureFlags::Normal]
    } else {
        (if flags % 2 == 1 { seq![TextureFlags::MirrorX] } else { Seq::empty() }) + (if (flags / 2) % 2 == 1 {
            seq![TextureFlags::MirrorY]
        } else {
            Seq::empty()
        })
    }
}

/// The ways of drawing that a flags byte asks for (see `flags_spec`).
pub fn into_flags(flags: u8) -> (r: Vec<TextureFlags>)
    ensures
        r@ == flags_spec(flags),
{
    let mut masks: Vec<TextureFlags> = Vec::new();
    if flags == 0 {
        masks.push(TextureFlags::Normal);
        assert(masks@ =~= flags_spec(flags));
        return masks;
    }
    let x = flags & 0b01;
    let y = flags & 0b10;
    assert(x == 0b01 <==> flags % 2 == 1) by (bit_vector)
        requires
            x == flags & 0b01,
    ;
    assert(y == 0b10 <==> (flags / 2) % 2 == 1) by (bit_vector)
        requires
            y == flags & 0b10,
    ;
    if x == 0b01 {
        masks.push(TextureFlags::MirrorX);
    }
    if y == 0b10 {
        masks.push(TextureFlags::MirrorY);
    }
    assert(masks@ =~= flags_spec(flags));
    masks
}

/// The address of byte `byte` of tile `tile`.
pub open spec fn tile_byte_address(tile: u8, byte: int) -> int {
    TILE_MEM_START + tile * BYTES_PER_TILE + byte
}

/// The bytes of memory from the reads of `addresses`, or the first error.
pub open spec fn read_all<A: Addressable<ADDRESS_SPACE>>(mem: A::V, addresses: Seq<u16>) -> Result<Seq<u8>, Error<ADDRESS_SPACE>>
    decreases addresses.len(),
{
    if addresses.len() == 0 {
        Ok(Seq::empty())
    } else {
        match read_all::<A>(mem, addresses.drop_last()) {
            Err(e) => Err(e),
            Ok(bytes) => match A::model_read(mem, addresses.last()) {
                Err(e) => Err(e),
                Ok(b) => Ok(bytes.push(b)),
            },
        }
    }
}

/// The addresses of the bytes of tile `tile`.
pub open spec fn tile_addresses(tile: u8) -> Seq<u16> {
    Seq::new(BYTES_PER_TILE as nat, |b: int| tile_byte_address(tile, b) as u16)
}

/// The pixels of a tile from its bytes, four bytes a pixel (see
/// `palette_spec`), row by row: each byte gives two pixels side by side, the
/// high nibble on the left.
pub open spec fn tile_pixels_spec(bytes: Seq<u8>) -> Seq<u8> {
    Seq::new((SPRITE_WIDTH * SPRITE_HEIGHT * 4) as nat, |k: int| {
        let pixel = k / 4;
        let byte = bytes[pixel / 2];
        let color = if pixel % 2 == 0 { byte / 16 } else { byte % 16 };
        palette_spec(color as int)[k % 4]
    })
}

/// The pixels of tile `tile` read from memory (see `tile_pixels_spec`), or
/// the first read that fails.
pub fn tile_pixels<A: Addressable<ADDRESS_SPACE>>(memory: &A, tile: u8) -> (r: Result<Vec<u8>, Error<ADDRESS_SPACE>>)
    ensures
        match read_all::<A>(memory@, tile_addresses(tile)) {
            Ok(bytes) => r matches Ok(v) && v@ == tile_pixels_spec(bytes),
            Err(e) => r matches Err(x) && x == e,
        },
{
    let ghost addresses = tile_addresses(tile);
    let mut bytes: Vec<u8> = Vec::new();
    let mut b: u16 = 0;
    while b < BYTES_PER_TILE
        invariant
            b <= BYTES_PER_TILE,
            addresses == tile_addresses(tile),
            bytes@.len() == b,
            read_all::<A>(memory@, addresses.take(b as int)) == Ok::<Seq<u8>, Error<ADDRESS_SPACE>>(bytes@),
        decreases BYTES_PER_TILE - b,
    {
        let address = TILE_MEM_START + tile as u16 * BYTES_PER_TILE + b;
        let word = match Word::<ADDRESS_SPACE>::try_from(address) {
            Ok(w) => w,
            Err(_) => unreached(),
        };
        proof {
            assert(addresses.take(b + 1).drop_last() =~= addresses.take(b as int));
            assert(addresses.take(b + 1).last() == address);
        }
        match memory.read(word) {
            Ok(v) => bytes.push(v),
            Err(e) => {
                proof {
                    lemma_read_all_error_stays::<A>(memory@, addresses, (b + 1) as int);
                }
                return Err(e);
            },
        }
        b = b + 1;
    }
    assert(addresses.take(BYTES_PER_TILE as int) =~= addresses);
    let mut pixels: Vec<u8> = Vec::new();
    let mut k: usize = 0;
    while k < 256
        invariant
            k <= 256,
            bytes@.len() == 32,
            pixels@ =~= tile_pixels_spec(bytes@).take(k as int),
        decreases 256 - k,
    {
        let pixel = k / 4;
        let byte = bytes[pixel / 2];
        let color = if pixel % 2 == 0 { byte >> 4 } else { byte & 0xf };
        assert(byte >> 4 == byte / 16 && byte & 0xf == byte % 16) by (bit_vector);
        let c = palette(color);
        pixels.push(c[k % 4]);
        k = k + 1;
    }
    Ok(pixels)
}

/// Once a read fails, reading more fails the same way.
proof fn lemma_read_all_error_stays<A: Addressable<ADDRESS_SPACE>>(mem: A::V, addresses: Seq<u16>, n: int)
    requires
        0 < n <= addresses.len(),
        read_all::<A>(mem, addresses.take(n)) is Err,
    ensures
        read_all::<A>(mem, addresses) == read_all::<A>(mem, addresses.take(n)),
    decreases addresses.len() - n,
{
    if n < addresses.len() {
        assert(addresses.take(n + 1).drop_last() =~= addresses.take(n));
        lemma_read_all_error_stays::<A>(mem, addresses, n + 1);
    } else {
        assert(addresses.take(n) =~= addresses);
    }
}

/// A tile drawn at a place on the screen, in pixels, with the ways of drawing
/// that its flags byte asks for (see `flags_spec`).
#[derive(Debug, Clone, Copy, PartialEq, Eq, Structural)]
pub struct DrawCommand {
    pub tile: u8,
    pub x: u16,
    pub y: u16,
    pub flags: u8,
}

/// Where tile `idx` of a section of the screen is drawn, at `scale`.
pub open spec fn section_place(idx: int, scale: int) -> (int, int) {
    (idx % 30 * 8 * scale, idx / 30 * 8 * scale)
}

/// The tiles of the first `n` bytes of a section at `start`: each byte names
/// a tile, laid out row by row, thirty to a row.
pub open spec fn section_spec<A: Addressable<ADDRESS_SPACE>>(
    mem: A::V,
    start: u16,
    n: nat,
    scale: u16,
) -> Result<Seq<DrawCommand>, Error<ADDRESS_SPACE>>
    decreases n,
{
    if n == 0 {
        Ok(Seq::empty())
    } else {
        match section_spec::<A>(mem, start, (n - 1) as nat, scale) {
            Err(e) => Err(e),
            Ok(cs) => match A::model_read(mem, (start + n - 1) as u16) {
                Err(e) => Err(e),
                Ok(t) => {
                    let (x, y) = section_place(n - 1, scale as int);
                    Ok(cs.push(DrawCommand { tile: t, x: x as u16, y: y as u16, flags: 0 }))
                },
            },
        }
    }
}

/// The first `n` sprites: each takes sixteen bytes, its tile, its place
/// across and down, and its flags, the place scaled by `scale`.
pub open spec fn sprites_spec<A: Addressable<ADDRESS_SPACE>>(mem: A::V, n: nat, scale: u16) -> Result<
    Seq<DrawCommand>,
    Error<ADDRESS_SPACE>,
>
    decreases n,
{
    if n == 0 {
        Ok(Seq::empty())
    } else {
        let at = SPRITE_MEM_START + (n - 1) * SPRITE_BYTES;
        match sprites_spec::<A>(mem, (n - 1) as nat, scale) {
            Err(e) => Err(e),
            Ok(cs) => match read_all::<A>(mem, seq![at as u16, (at + 1) as u16, (at + 2) as u16, (at + 3) as u16]) {
                Err(e) => Err(e),
                Ok(b) => Ok(cs.push(DrawCommand { tile: b[0], x: (b[1] * scale) as u16, y: (b[2] * scale) as u16, flags: b[3] })),
            },
        }
    }
}

/// Whether `scale` keeps every place on the screen within 16 bits.
pub open spec fn scale_fits(scale: u16) -> bool {
    scale <= 257
}

/// The tiles of a section of `size` bytes at `start` (see `section_spec`).
pub fn section_commands<A: Addressable<ADDRESS_SPACE>>(
    memory: &A,
    start: u16,
    size: u16,
    scale: u16,
    out: &mut Vec<DrawCommand>,
) -> (r: Result<(), Error<ADDRESS_SPACE>>)
    requires
        scale_fits(scale),
        size <= 420,
        start + size <= ADDRESS_SPACE,
    ensures
        match section_spec::<A>(memory@, start, size as nat, scale) {
            Ok(cs) => r is Ok && final(out)@ == old(out)@ + cs,
            Err(e) => r matches Err(x) && x == e,
        },
{
    let ghost base = out@;
    let mut idx: u16 = 0;
    while idx < size
        invariant
            idx <= size <= 420,
            scale_fits(scale),
            start + size <= ADDRESS_SPACE,
            match section_spec::<A>(memory@, start, idx as nat, scale) {
                Ok(cs) => out@ == base + cs,
                Err(_) => false,
            },
        decreases size - idx,
    {
        let word = match Word::<ADDRESS_SPACE>::try_from(start + idx) {
            Ok(w) => w,
            Err(_) => unreached(),
        };
        let tile = match memory.read(word) {
            Ok(t) => t,
            Err(e) => {
                proof {
                    lemma_section_error_stays::<A>(memory@, start, (idx + 1) as nat, size as nat, scale);
                }
                return Err(e);
            },
        };
        assert(idx / TILES_WIDTH <= 13);
        assert(idx % TILES_WIDTH * SPRITE_WIDTH * scale <= 65535) by (nonlinear_arith)
            requires
                scale <= 257,
                idx % TILES_WIDTH < 30,
        ;
        assert(idx / TILES_WIDTH * SPRITE_WIDTH * scale <= 65535) by (nonlinear_arith)
            requires
                scale <= 257,
                idx / TILES_WIDTH <= 13,
        ;
        let x = idx % TILES_WIDTH * SPRITE_WIDTH * scale;
        let y = idx / TILES_WIDTH * SPRITE_WIDTH * scale;
        out.push(DrawCommand { tile, x, y, flags: 0 });
        idx = idx + 1;
        proof {
            let prev = section_spec::<A>(memory@, start, (idx - 1) as nat, scale)->Ok_0;
            assert(out@ =~= base + prev.push(DrawCommand { tile, x, y, flags: 0 }));
        }
    }
    Ok(())
}

/// Once a section fails to be read, a longer one fails the same way.
proof fn lemma_section_error_stays<A: Addressable<ADDRESS_SPACE>>(mem: A::V, start: u16, n: nat, m: nat, scale: u16)
    requires
        n <= m,
        section_spec::<A>(mem, start, n, scale) is Err,
    ensures
        section_spec::<A>(mem, start, m, scale) == section_spec::<A>(mem, start, n, scale),
    decreases m - n,
{
    if n < m {
        lemma_section_error_stays::<A>(mem, start, n, (m - 1) as nat, scale);
    }
}

/// Once the sprites fail to be read, more of them fail the same way.
proof fn lemma_sprites_error_stays<A: Addressable<ADDRESS_SPACE>>(mem: A::V, n: nat, m: nat, scale: u16)
    requires
        n <= m,
        sprites_spec::<A>(mem, n, scale) is Err,
    ensures
        sprites_spec::<A>(mem, m, scale) == sprites_spec::<A>(mem, n, scale),
    decreases m - n,
{
    if n < m {
        lemma_sprites_error_stays::<A>(mem, n, (m - 1) as nat, scale);
    }
}

/// The sprites of the console (see `sprites_spec`).
pub fn sprite_commands<A: Addressable<ADDRESS_SPACE>>(memory: &A, scale: u16, out: &mut Vec<DrawCommand>) -> (r: Result<(), Error<ADDRESS_SPACE>>)
    requires
        scale_fits(scale),
    ensures
        match sprites_spec::<A>(memory@, SPRITES as nat, scale) {
            Ok(cs) => r is Ok && final(out)@ == old(out)@ + cs,
            Err(e) => r matches Err(x) && x == e,
        },
{
    let ghost base = out@;
    let mut i: u16 = 0;
    while i < SPRITES
        invariant
            i <= SPRITES,
            scale_fits(scale),
            match sprites_spec::<A>(memory@, i as nat, scale) {
                Ok(cs) => out@ == base + cs,
                Err(_) => false,
            },
        decreases SPRITES - i,
    {
        let at = SPRITE_MEM_START + i * SPRITE_BYTES;
        let ghost addresses = seq![at, (at + 1) as u16, (at + 2) as u16, (at + 3) as u16];
        let mut bytes: Vec<u8> = Vec::new();
        let mut j: u16 = 0;
        while j < 4
            invariant
                j <= 4,
                i < SPRITES,
                at == SPRITE_MEM_START + i * SPRITE_BYTES,
                addresses == seq![at, (at + 1) as u16, (at + 2) as u16, (at + 3) as u16],
                bytes@.len() == j,
                scale_fits(scale),
                match sprites_spec::<A>(memory@, i as nat, scale) {
                    Ok(cs) => out@ == base + cs,
                    Err(_) => false,
                },
                read_all::<A>(memory@, addresses.take(j as int)) == Ok::<Seq<u8>, Error<ADDRESS_SPACE>>(bytes@),
            decreases 4 - j,
        {
            let word = match Word::<ADDRESS_SPACE>::try_from(at + j) {
                Ok(w) => w,
                Err(_) => unreached(),
            };
            proof {
                assert(addresses.take(j + 1).drop_last() =~= addresses.take(j as int));
                assert(addresses.take(j + 1).last() == at + j);
            }
            match memory.read(word) {
                Ok(v) => bytes.push(v),
                Err(e) => {
                    proof {
                        lemma_read_all_error_stays::<A>(memory@, addresses, (j + 1) as int);
                        assert(addresses =~= seq![(SPRITE_MEM_START + i * SPRITE_BYTES) as u16,
                            (SPRITE_MEM_START + i * SPRITE_BYTES + 1) as u16, (SPRITE_MEM_START + i * SPRITE_BYTES + 2) as u16,
                            (SPRITE_MEM_START + i * SPRITE_BYTES + 3) as u16]);
                        assert(sprites_spec::<A>(memory@, (i + 1) as nat, scale) == Err::<Seq<DrawCommand>, Error<ADDRESS_SPACE>>(e));
                        lemma_sprites_error_stays::<A>(memory@, (i + 1) as nat, SPRITES as nat, scale);
                    }
                    return Err(e);
                },
            }
            j = j + 1;
        }
        assert(addresses.take(4) =~= addresses);
        assert(bytes@[1] * scale <= 65535 && bytes@[2] * scale <= 65535) by (nonlinear_arith)
            requires
                scale <= 257,
                bytes@[1] <= 255,
                bytes@[2] <= 255,
        ;
        let command = DrawCommand { tile: bytes[0], x: bytes[1] as u16 * scale, y: bytes[2] as u16 * scale, flags: bytes[3] };
        out.push(command);
        proof {
            assert(addresses =~= seq![(SPRITE_MEM_START + i * SPRITE_BYTES) as u16,
                (SPRITE_MEM_START + i * SPRITE_BYTES + 1) as u16, (SPRITE_MEM_START + i * SPRITE_BYTES + 2) as u16,
                (SPRITE_MEM_START + i * SPRITE_BYTES + 3) as u16]);
            let prev = sprites_spec::<A>(memory@, i as nat, scale)->Ok_0;
            assert(out@ =~= base + prev.push(command));
        }
        i = i + 1;
    }
    Ok(())
}

/// Everything a frame is drawn from, in the order it is drawn: the
/// background, the sprites, the background again as foreground, and the
/// interface.
pub open spec fn frame_spec<A: Addressable<ADDRESS_SPACE>>(mem: A::V, scale: u16) -> Result<Seq<DrawCommand>, Error<ADDRESS_SPACE>> {
    match section_spec::<A>(mem, BG_MEM_START, BG_MEMORY as nat, scale) {
        Err(e) => Err(e),
        Ok(bg) => match sprites_spec::<A>(mem, SPRITES as nat, scale) {
            Err(e) => Err(e),
            Ok(sp) => match section_spec::<A>(mem, UI_MEM_START, INTERFACE_MEMORY as nat, scale) {
                Err(e) => Err(e),
                Ok(ui) => Ok(bg + sp + bg + ui),
            },
        },
    }
}

/// Everything a frame is drawn from (see `frame_spec`).
pub fn frame_commands<A: Addressable<ADDRESS_SPACE>>(memory: &A, scale: u16) -> (r: Result<Vec<DrawCommand>, Error<ADDRESS_SPACE>>)
    requires
        scale_fits(scale),
    ensures
        match frame_spec::<A>(memory@, scale) {
            Ok(cs) => r matches Ok(v) && v@ == cs,
            Err(e) => r matches Err(x) && x == e,
        },
{
    let ghost bg = section_spec::<A>(memory@, BG_MEM_START, BG_MEMORY as nat, scale);
    let ghost sp = sprites_spec::<A>(memory@, SPRITES as nat, scale);
    let ghost ui = section_spec::<A>(memory@, UI_MEM_START, INTERFACE_MEMORY as nat, scale);
    let mut out: Vec<DrawCommand> = Vec::new();
    match section_commands(memory, BG_MEM_START, BG_MEMORY as u16, scale, &mut out) {
        Ok(()) => {},
        Err(e) => return Err(e),
    }
    match sprite_commands(memory, scale, &mut out) {
        Ok(()) => {},
        Err(e) => return Err(e),
    }
    match section_commands(memory, BG_MEM_START, BG_MEMORY as u16, scale, &mut out) {
        Ok(()) => {},
        Err(e) => return Err(e),
    }
    match section_commands(memory, UI_MEM_START, INTERFACE_MEMORY as u16, scale, &mut out) {
        Ok(()) => {},
        Err(e) => return Err(e),
    }
    assert(out@ =~= bg->Ok_0 + sp->Ok_0 + bg->Ok_0 + ui->Ok_0);
    Ok(out)
}

} // verus!
