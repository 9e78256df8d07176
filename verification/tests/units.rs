use aya::console::input::{Input, KeyStatus, Keyboard, RaylibInput};
use aya::console::rom_loader::load_from_file;
use aya::console::screen::{frame_commands, into_flags, palette, tile_pixels, DrawCommand, TextureFlags};
use aya::console::{setup_memory, Interrupt, BG_MEM_START, CODE_MEM_START, SPRITE_MEM_START, STACK_MEM_START, TILE_MEM_START};
use aya::console::devices::{BackgroundMemory, SpriteMemory, TileMemory};
use aya::hex::{parse_hex_u16, parse_hex_u8};
use aya::memory::{self, Addressable};
use aya::assembler::op_code::OpCode as AsmOpCode;
use aya::assembler::register::{self as asm_register, Register as AsmRegister};
use aya::op_code::{self, OpCode};
use aya::register::{self, Register};
use aya::table::Table;
use aya::word::Word;

#[test]
fn hex_numbers_read_as_from_str_radix() {
    assert_eq!(parse_hex_u16(b"C0D3"), Some(0xC0D3));
    assert_eq!(parse_hex_u16(b"c0d3"), Some(0xC0D3));
    assert_eq!(parse_hex_u16(b"+1f"), Some(0x1F));
    assert_eq!(parse_hex_u16(b"FFFF"), Some(0xFFFF));
    assert_eq!(parse_hex_u16(b"10000"), None);
    assert_eq!(parse_hex_u16(b""), None);
    assert_eq!(parse_hex_u16(b"+"), None);
    assert_eq!(parse_hex_u16(b"G1"), None);
    assert_eq!(parse_hex_u8(b"ff"), Some(0xFF));
    assert_eq!(parse_hex_u8(b"100"), None);
    assert_eq!(parse_hex_u8(b"0a"), Some(0x0A));
}

#[test]
fn op_codes_read_back_their_byte() {
    for value in 0u16..=0xFF {
        if let Ok(op) = OpCode::try_from(value) {
            assert_eq!(op.byte() as u16, value);
        }
        if let Ok(op) = AsmOpCode::try_from(value) {
            assert_eq!(op.byte() as u16, value);
        }
    }
    assert_eq!(OpCode::try_from(0x10), Ok(OpCode::MovLitReg));
    assert_eq!(OpCode::try_from(0x11), Ok(OpCode::MovRegReg));
    assert_eq!(OpCode::try_from(0x40), Ok(OpCode::PushLit));
    assert_eq!(OpCode::try_from(0x41), Ok(OpCode::PushReg));
    assert_eq!(OpCode::try_from(0x30), Ok(OpCode::LshLitReg));
    assert_eq!(OpCode::try_from(0xFF), Ok(OpCode::Halt));
    assert_eq!(OpCode::try_from(0x50), Err(op_code::Error::InvalidValue(0x50)));
    assert_eq!(OpCode::try_from(0xFD), Err(op_code::Error::InvalidValue(0xFD)));
    assert_eq!(OpCode::try_from(0x23), Err(op_code::Error::InvalidValue(0x23)));
    assert_eq!(OpCode::try_from(0x100), Err(op_code::Error::InvalidValue(0x100)));
    assert_eq!(AsmOpCode::try_from(0x11), Ok(AsmOpCode::MovLitReg));
    assert_eq!(AsmOpCode::try_from(0xFD), Ok(AsmOpCode::Int));
}

#[test]
fn registers_by_number() {
    let all = Register::iter();
    assert_eq!(
        all,
        vec![
            Register::Ret,
            Register::IP,
            Register::R1,
            Register::R2,
            Register::R3,
            Register::R4,
            Register::R5,
            Register::R6,
            Register::R7,
            Register::R8,
            Register::SP,
            Register::FP
        ]
    );
    for (i, r) in all.iter().enumerate() {
        assert_eq!(r.number() as usize, i);
    }
    assert_eq!(Register::len(), 12);
    assert!(!Register::is_empty());
    assert_eq!(Register::try_from(0), Ok(Register::Ret));
    assert_eq!(Register::try_from(2), Ok(Register::R1));
    assert_eq!(Register::try_from(9), Ok(Register::R8));
    assert_eq!(Register::try_from(1), Err(register::Error::ForbiddenRegister(Register::IP)));
    assert_eq!(Register::try_from(11), Err(register::Error::ForbiddenRegister(Register::SP)));
    assert_eq!(Register::try_from(10), Err(register::Error::InvalidRegister(10)));
    assert_eq!(Register::try_from(13), Err(register::Error::InvalidRegister(13)));
}

#[test]
fn assembly_registers_by_name() {
    assert_eq!(AsmRegister::from_name(b"ACC"), Ok(AsmRegister::Acc));
    assert_eq!(AsmRegister::from_name(b"r3"), Ok(AsmRegister::R3));
    assert_eq!(AsmRegister::from_name(b"Im"), Ok(AsmRegister::IM));
    assert_eq!(AsmRegister::from_name(b"r9"), Err(asm_register::Error::UnknownName));
    assert_eq!(AsmRegister::R1.byte(), 2);
    assert_eq!(AsmRegister::IM.index(), 12);
}

#[test]
fn table_insert_replaces_and_get_finds() {
    let mut t: Table<u16> = Table::new();
    assert_eq!(t.len(), 0);
    assert_eq!(t.get(b"a"), None);
    t.insert(b"a", 1);
    t.insert(b"b", 2);
    t.insert(b"a", 3);
    assert_eq!(t.len(), 2);
    assert_eq!(t.get(b"a"), Some(&3));
    assert_eq!(t.get(b"b"), Some(&2));
    assert_eq!(t.get(b"c"), None);
    let (name, value) = t.entry_at(1);
    assert_eq!((name, *value), (&b"b"[..], 2));
    t.set_at(1, 7);
    assert_eq!(t.get(b"b"), Some(&7));
}

/// A ROM file: header, name, then the code and the sprites at the offsets
/// the header gives.
fn rom_file(name: &[u8], code: &[u8], sprites: &[u8]) -> Vec<u8> {
    let mut rom = vec![0u8; 0x80];
    rom[0..3].copy_from_slice(b"AYA");
    rom[5..5 + name.len()].copy_from_slice(name);
    let code_offset = rom.len();
    rom.extend_from_slice(code);
    let sprites_offset = rom.len();
    rom.extend_from_slice(sprites);
    rom.push(0);
    for (at, v) in [(0x44, code_offset), (0x46, code.len()), (0x48, sprites_offset), (0x4A, sprites.len())] {
        rom[at] = (v % 256) as u8;
        rom[at + 1] = (v / 256) as u8;
    }
    rom
}

#[test]
fn rom_gives_name_code_and_sprites() {
    let file = rom_file(b"pong", &[0x11, 0x02, 0x01, 0x00], &[9, 8, 7]);
    let rom = load_from_file(&file);
    assert_eq!(rom.name, b"pong");
    assert_eq!(rom.code, &[0x11, 0x02, 0x01, 0x00]);
    assert_eq!(rom.sprites, &[9, 8, 7]);
}

#[test]
fn console_memory_layout() {
    let file = rom_file(b"demo", &[0xFF, 0x00], &[0xAA, 0xBB]);
    let rom = load_from_file(&file);
    let mut mem = setup_memory(&rom);
    let at = |a: u16| Word::<0x10000>::try_from(a).unwrap();
    assert_eq!(mem.read(at(TILE_MEM_START)).unwrap(), 0xAA);
    assert_eq!(mem.read(at(TILE_MEM_START + 1)).unwrap(), 0xBB);
    mem.write(at(CODE_MEM_START), 0x45).unwrap();
    assert_eq!(mem.read(at(CODE_MEM_START)).unwrap(), 0x45);
    mem.write_word(at(STACK_MEM_START + 4), 0xBEEF).unwrap();
    assert_eq!(mem.read_word(at(STACK_MEM_START + 4)).unwrap(), 0xBEEF);
    assert!(matches!(mem.read(at(0x8000)), Err(memory::Error::UnmappedAddress(_))));
}

#[test]
fn console_devices_and_keys() {
    let mut tiles = TileMemory::new(&[1, 2, 3]);
    assert_eq!(tiles.read(2), Some(3));
    assert_eq!(tiles.read(3), Some(0));
    assert_eq!(tiles.read(8192), None);
    tiles.write(3, 4);
    assert_eq!(tiles.read(3), Some(4));
    let mut sprites = SpriteMemory::new();
    sprites.write(639, 5);
    assert_eq!(sprites.read(639), 5);
    let mut bg = BackgroundMemory::new();
    bg.write(0, 6);
    assert_eq!(bg.read(0), 6);
    assert_eq!(bg.read(1), 0);

    let mut keys = KeyStatus::reset();
    assert_eq!(keys.bits(), 0);
    keys.mask_on(0);
    keys.mask_on(3);
    keys.mask_on(3);
    assert_eq!(keys.bits(), 0b1001);
    assert_eq!(Interrupt::AfterFrame.number(), 0);
}

#[test]
fn keyboard_keys_mark_their_bits() {
    let none = Keyboard {
        a: false,
        left: false,
        s: false,
        down: false,
        w: false,
        up: false,
        d: false,
        right: false,
        space: false,
        c: false,
        escape: false,
        tab: false,
    };
    assert_eq!(RaylibInput { keys: none }.poll().bits(), 0);
    let some = Keyboard { a: true, right: true, space: true, tab: true, ..none };
    assert_eq!(RaylibInput { keys: some }.poll().bits(), 0b1001_1001);
    let arrows = Keyboard { left: true, down: true, up: true, c: true, escape: true, ..none };
    assert_eq!(RaylibInput { keys: arrows }.poll().bits(), 0b1110_0110);
    let mut status = KeyStatus::reset();
    RaylibInput { keys: none }.key_pause_pressed(&mut status);
    assert_eq!(status.bits(), 0b10);
}

#[test]
fn tiles_turn_into_pixels() {
    let mut sprites = vec![0u8; 64];
    sprites[32] = 0x1F;
    let file = rom_file(b"tiles", &[0xFF, 0x00], &sprites);
    let rom = load_from_file(&file);
    let mem = setup_memory(&rom);
    let pixels = tile_pixels(&mem, 1).unwrap();
    assert_eq!(pixels.len(), 256);
    assert_eq!(&pixels[0..4], &palette(1));
    assert_eq!(&pixels[4..8], &palette(15));
    assert_eq!(&pixels[8..12], &[0, 0, 0, 0]);
    assert_eq!(palette(1), [0x9d, 0xc1, 0xc0, 0xff]);
}

#[test]
fn flags_byte_picks_the_mirrors() {
    assert_eq!(into_flags(0), vec![TextureFlags::Normal]);
    assert_eq!(into_flags(1), vec![TextureFlags::MirrorX]);
    assert_eq!(into_flags(2), vec![TextureFlags::MirrorY]);
    assert_eq!(into_flags(3), vec![TextureFlags::MirrorX, TextureFlags::MirrorY]);
    assert_eq!(into_flags(4), Vec::<TextureFlags>::new());
}

#[test]
fn frame_is_background_sprites_foreground_interface() {
    let file = rom_file(b"frame", &[0xFF, 0x00], &[]);
    let rom = load_from_file(&file);
    let mut mem = setup_memory(&rom);
    let at = |a: u16| Word::<0x10000>::try_from(a).unwrap();
    mem.write(at(BG_MEM_START + 31), 7).unwrap();
    mem.write(at(SPRITE_MEM_START + 16), 9).unwrap();
    mem.write(at(SPRITE_MEM_START + 17), 10).unwrap();
    mem.write(at(SPRITE_MEM_START + 18), 20).unwrap();
    mem.write(at(SPRITE_MEM_START + 19), 1).unwrap();
    let commands = frame_commands(&mem, 2).unwrap();
    assert_eq!(commands.len(), 420 + 40 + 420 + 420);
    assert_eq!(commands[31], DrawCommand { tile: 7, x: 16, y: 16, flags: 0 });
    assert_eq!(commands[420 + 1], DrawCommand { tile: 9, x: 20, y: 40, flags: 1 });
    assert_eq!(commands[460 + 31], commands[31]);
    assert_eq!(commands[880 + 29], DrawCommand { tile: 0, x: 29 * 16, y: 0, flags: 0 });
}
