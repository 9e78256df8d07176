use aya::console::devices::OutputDevice;
use aya::cpu::{Cpu, Error, ExecutionFlow, RunEnd};
use aya::op_code;
use aya::memory::{self, Addressable, LinearMemory, MappableDevice, RegionMemory, MappingMode, MemoryMapper, OutputCommand, OutputMemory};
use aya::register::Register;
use aya::word::Word;

fn word<const SIZE: usize>(value: u16) -> Word<SIZE> {
    Word::<SIZE>::try_from(value).unwrap()
}

fn machine(program: &[u8]) -> Cpu<256, LinearMemory<256>> {
    let mut cpu = Cpu::new(LinearMemory::<256>::new());
    cpu.load_into_address(program, 0).unwrap();
    cpu.starting_address(0);
    cpu
}

#[test]
fn word_bounds() {
    assert_eq!(word::<4>(3).value(), 3);
    assert!(matches!(Word::<4>::try_from(4), Err(memory::Error::InvalidAddress(4))));
    assert!(matches!(word::<4>(3).next(), Err(memory::Error::StackOverflow)));
    assert_eq!(word::<4>(2).next().unwrap().value(), 3);
    assert!(matches!(word::<4>(2).next_word(), Err(memory::Error::StackOverflow)));
    assert_eq!(word::<4>(1).next_word().unwrap().value(), 3);
    assert!(matches!(word::<4>(0).prev(), Err(memory::Error::StackUnderflow)));
    assert!(matches!(word::<4>(1).prev_word(), Err(memory::Error::StackUnderflow)));
    assert_eq!(word::<4>(3).prev_word().unwrap().value(), 1);
    assert_eq!(word::<16>(5).add(&word::<16>(6)).unwrap().value(), 11);
    assert!(matches!(word::<16>(10).add(&word::<16>(6)), Err(memory::Error::StackOverflow)));
    assert_eq!(word::<16>(10).sub(&word::<16>(6)).unwrap().value(), 4);
    assert!(matches!(word::<16>(5).sub(&word::<16>(6)), Err(memory::Error::StackUnderflow)));
}

#[test]
fn linear_write_then_read() {
    let mut mem = LinearMemory::<16>::new();
    assert_eq!(mem.len(), 16);
    mem.write(word(3), 0xAB).unwrap();
    assert_eq!(mem.read(word(3)).unwrap(), 0xAB);
    assert_eq!(mem.read(word(2)).unwrap(), 0x00);
    assert_eq!(mem.read(word(4)).unwrap(), 0x00);
}

#[test]
fn linear_words_are_little_endian() {
    let mut mem = LinearMemory::<16>::new();
    mem.write_word(word(4), 0x1234).unwrap();
    assert_eq!(mem.read(word(4)).unwrap(), 0x34);
    assert_eq!(mem.read(word(5)).unwrap(), 0x12);
    assert_eq!(mem.read_word(word(4)).unwrap(), 0x1234);
    assert!(matches!(mem.write_word(word(15), 0x1234), Err(memory::Error::StackOverflow)));
}

#[test]
fn region_memory_shorter_than_the_machine() {
    let mut mem = RegionMemory::<16>::with_len(4);
    assert!(matches!(mem.read(word(8)), Err(memory::Error::InvalidAddress(8))));
    assert!(matches!(mem.write(word(4), 1), Err(memory::Error::InvalidAddress(4))));
    let mem = RegionMemory::<16>::from_bytes(&[1, 2], 4);
    let full = LinearMemory::<16>::from_bytes(&[1, 2]);
    assert_eq!(full.len(), 16);
    assert_eq!(full.read(word(15)).unwrap(), 0);
    assert_eq!(mem.len(), 4);
    assert_eq!(mem.read(word(1)).unwrap(), 2);
    assert_eq!(mem.read(word(3)).unwrap(), 0);
}

#[test]
fn inspect_reads_words_until_the_end() {
    let mem = LinearMemory::<8>::from_bytes(&[1, 0, 2, 0, 3, 0, 4, 0]);
    assert_eq!(memory::inspect_address(&mem, word(2), 2).unwrap(), vec![2, 3]);
    assert_eq!(memory::inspect_address(&mem, word(4), 5).unwrap(), vec![3, 4]);
}

#[test]
fn mapper_remaps_and_last_mapped_wins() {
    let mut mapper = MemoryMapper::<64>::new();
    assert!(matches!(mapper.read(word(0)), Err(memory::Error::UnmappedAddress(_))));
    let low = LinearMemory::<64>::new();
    mapper.map(MappableDevice::from_linear(low), 0, 15, MappingMode::Direct).unwrap();
    let high = RegionMemory::<64>::with_len(8);
    mapper.map(MappableDevice::from_region(high), 8, 15, MappingMode::Remap).unwrap();
    assert!(matches!(
        mapper.map(MappableDevice::from_region(RegionMemory::<64>::with_len(1)), 70, 80, MappingMode::Direct),
        Err(memory::Error::InvalidAddress(70))
    ));

    mapper.write(word(9), 0x77).unwrap();
    assert_eq!(mapper.read(word(9)).unwrap(), 0x77);
    mapper.write(word(2), 0x55).unwrap();
    assert_eq!(mapper.read(word(2)).unwrap(), 0x55);
    assert!(matches!(mapper.read(word(20)), Err(memory::Error::UnmappedAddress(_))));
}

#[test]
fn output_memory_turns_words_into_events() {
    let mut out = OutputMemory::<0x10000>::new();
    out.write_word(word(0x11), 0x0041).unwrap();
    out.write_word(word(0x00), 0xFF20).unwrap();
    assert_eq!(out.read(word(0x11)).unwrap(), 0);
    let events = out.take_events();
    assert_eq!(events.len(), 2);
    assert_eq!(events[0].command, OutputCommand::Plain);
    assert_eq!((events[0].x, events[0].y, events[0].ch), (2, 2, 0x41));
    assert_eq!(events[1].command, OutputCommand::ClearScreen);
    assert_eq!((events[1].x, events[1].y, events[1].ch), (1, 1, 0x20));
    assert!(out.take_events().is_empty());
}

#[test]
fn cpu_starts_with_the_stack_at_the_top() {
    let cpu = Cpu::new(LinearMemory::<256>::new());
    assert_eq!(cpu.stack_address(), 254);
    assert_eq!(cpu.registers.fetch(Register::FP), 254);
    assert_eq!(cpu.registers.fetch(Register::R1), 0);
}

#[test]
fn cpu_runs_moves_adds_and_halts() {
    let mut cpu = machine(&[
        0x10, 0x02, 0x00, 0x42, // mov r1, $4200
        0x10, 0x03, 0x13, 0x00, // mov r2, $0013
        0x20, 0x02, 0x03, // add r1, r2
        0x12, 0x80, 0x00, 0x02, // mov &[$0080], r1
        0xFF, 0x07, // hlt $07
    ]);
    for _ in 0..4 {
        assert!(cpu.can_step());
        assert_eq!(cpu.step().unwrap(), ExecutionFlow::Continue);
    }
    assert_eq!(cpu.registers.fetch(Register::R1), 0x4213);
    assert_eq!(cpu.memory.read_word(word(0x80)).unwrap(), 0x4213);
    assert_eq!(cpu.step().unwrap(), ExecutionFlow::Halt(7));
}

#[test]
fn cpu_pop_gives_back_the_pushed_value() {
    let mut cpu = machine(&[
        0x40, 0x34, 0x12, // psh $1234
        0x42, 0x04, // pop r3
    ]);
    let stack = cpu.stack_address();
    cpu.step().unwrap();
    assert_eq!(cpu.stack_address(), stack - 2);
    cpu.step().unwrap();
    assert_eq!(cpu.registers.fetch(Register::R3), 0x1234);
    assert_eq!(cpu.stack_address(), stack);
}

#[test]
fn cpu_return_restores_the_registers_of_the_call() {
    let mut program = vec![
        0x10, 0x02, 0x11, 0x11, // mov r1, $1111
        0x43, 0x40, 0x00, // call $0040
        0xFF, 0x00, // hlt $00
    ];
    program.resize(0x40, 0);
    program.extend_from_slice(&[
        0x10, 0x02, 0x99, 0x99, // mov r1, $9999
        0x45, // ret
    ]);
    let mut cpu = machine(&program);
    cpu.step().unwrap();
    let stack = cpu.stack_address();
    cpu.step().unwrap();
    assert_eq!(cpu.registers.fetch(Register::IP), 0x40);
    cpu.step().unwrap();
    assert_eq!(cpu.registers.fetch(Register::R1), 0x9999);
    cpu.step().unwrap();
    assert_eq!(cpu.registers.fetch(Register::IP), 7);
    assert_eq!(cpu.registers.fetch(Register::R1), 0x1111);
    assert_eq!(cpu.stack_address(), stack);
    assert_eq!(cpu.step().unwrap(), ExecutionFlow::Halt(0));
}

#[test]
fn cpu_jumps_compare_with_the_accumulator() {
    let mut cpu = machine(&[
        0x10, 0x00, 0x05, 0x00, // mov ret, $0005
        0x55, 0x20, 0x00, 0x05, 0x00, // jne &[$0020], $0005
        0x51, 0x30, 0x00, 0x05, 0x00, // jeq &[$0030], $0005
    ]);
    cpu.step().unwrap();
    cpu.step().unwrap();
    assert_eq!(cpu.registers.fetch(Register::IP), 9);
    cpu.step().unwrap();
    assert_eq!(cpu.registers.fetch(Register::IP), 0x30);
}

#[test]
fn cpu_rejects_an_unknown_operation() {
    let mut cpu = machine(&[0x01]);
    assert!(cpu.can_step());
    assert!(cpu.step().is_err());
}

#[test]
fn cpu_run_stops_at_the_halt() {
    let mut cpu = machine(&[
        0x10, 0x02, 0x01, 0x00, // mov r1, $0001
        0x25, 0x02, // inc r1
        0xFF, 0x09, // hlt $09
    ]);
    assert!(matches!(cpu.run(100), RunEnd::Halted(9)));
    assert_eq!(cpu.registers.fetch(Register::R1), 2);
}

#[test]
fn cpu_run_counts_its_steps() {
    let mut cpu = machine(&[
        0x25, 0x02, // inc r1
        0x25, 0x02, // inc r1
        0x25, 0x02, // inc r1
    ]);
    assert!(matches!(cpu.run(2), RunEnd::OutOfSteps));
    assert_eq!(cpu.registers.fetch(Register::R1), 2);
    let mut cpu = machine(&[0x01]);
    assert!(matches!(cpu.run(5), RunEnd::Failed(_)));
    let mut cpu = machine(&[0x30, 0x02, 0x01, 0x00]);
    assert!(matches!(cpu.run(5), RunEnd::Unsupported));
    let mut cpu = machine(&[0x50, 0x00, 0x00]);
    assert!(matches!(cpu.run(5), RunEnd::Failed(Error::OpCode(op_code::Error::InvalidValue(0x50)))));
}

#[test]
fn output_device_keeps_bytes_and_drops_words() {
    let mut dev = OutputDevice::<32>::new();
    dev.write(word(4), 0x41).unwrap();
    assert_eq!(dev.read(word(4)).unwrap(), 0x41);
    dev.write_word(word(6), 0x1234).unwrap();
    assert_eq!(dev.read(word(6)).unwrap(), 0);
    assert_eq!(dev.read_word(word(4)).unwrap(), 0);
}

#[test]
fn cpu_run_in_slices_ends_like_one_run() {
    let program = [
        0x25, 0x02, // inc r1
        0x25, 0x03, // inc r2
        0x20, 0x02, 0x03, // add r1, r2
        0x40, 0x34, 0x12, // psh $1234
        0xFF, 0x01, // hlt $01
    ];
    let mut sliced = machine(&program);
    assert!(matches!(sliced.run(2), RunEnd::OutOfSteps));
    assert!(matches!(sliced.run(2), RunEnd::OutOfSteps));
    let mut whole = machine(&program);
    assert!(matches!(whole.run(4), RunEnd::OutOfSteps));
    for r in [Register::R1, Register::R2, Register::IP, Register::SP] {
        assert_eq!(sliced.registers.fetch(r), whole.registers.fetch(r));
    }
    assert!(matches!(sliced.run(10), RunEnd::Halted(1)));
    assert!(matches!(whole.run(10), RunEnd::Halted(1)));
}

#[test]
fn cpu_decodes_with_the_machine_table() {
    let mut cpu = machine(&[0x10, 0x02, 0x34, 0x12]);
    let instruction = cpu.fetch().unwrap();
    assert!(matches!(instruction, aya::instruction::Instruction::MovLitReg(Register::R1, 0x1234)));
    assert_eq!(cpu.registers.fetch(Register::IP), 4);
    let mut cpu = machine(&[0x11, 0x02, 0x03, 0x41, 0x02]);
    assert!(matches!(cpu.fetch().unwrap(), aya::instruction::Instruction::MovRegReg(Register::R1, Register::R2)));
    assert!(matches!(cpu.fetch().unwrap(), aya::instruction::Instruction::PushLit(0)));
    for byte in [0x50u8, 0xFD, 0xFE] {
        let mut cpu = machine(&[byte]);
        assert!(cpu.can_step());
        assert!(matches!(cpu.fetch(), Err(Error::OpCode(op_code::Error::InvalidValue(_)))));
    }
}
