use cpu_core::AddressingMode;
use cpu_core::CpuError;
use cpu_core::StepResult;
use cpu_core::CPU;

#[test]
fn test_0xa9_lda_immediate_load_data() {
    let mut cpu = CPU::new();
    cpu.load_and_run(vec![0xa9, 0x05, 0x00]).unwrap();
    assert_eq!(cpu.register_a, 0x05);
    assert!(cpu.status & 0b0000_0010 == 0b00);
    assert!(cpu.status & 0b1000_0000 == 0);
}

#[test]
fn test_0xaa_tax_move_a_to_x() {
    let mut cpu = CPU::new();
    cpu.load(vec![0xaa, 0x00]).unwrap();
    cpu.reset();
    cpu.register_a = 10;
    cpu.run();

    assert_eq!(cpu.register_x, 10)
}

#[test]
fn test_0xa9_lda_zero_flag() {
    let mut cpu = CPU::new();
    cpu.load_and_run(vec![0xa9, 0x00, 0x00]).unwrap();
    assert!(cpu.status & 0b0000_0010 == 0b10);
}

#[test]
fn test_5_ops_working_together() {
    let mut cpu = CPU::new();
    cpu.load_and_run(vec![0xa9, 0xc0, 0xaa, 0xe8, 0x00]).unwrap();

    assert_eq!(cpu.register_x, 0xc1)
}

#[test]
fn test_inx_overflow() {
    let mut cpu = CPU::new();
    cpu.load(vec![0xe8, 0xe8, 0x00]).unwrap();
    cpu.reset();
    cpu.register_x = 0xff;
    cpu.run();

    assert_eq!(cpu.register_x, 1)
}

#[test]
fn test_lda_from_memory() {
    let mut cpu = CPU::new();
    cpu.mem_write(0x10, 0x55);

    cpu.load_and_run(vec![0xa5, 0x10, 0x00]).unwrap();

    assert_eq!(cpu.register_a, 0x55);
}

#[test]
fn flag_unit_zero_value_sets_zero_clears_negative() {
    let mut cpu = CPU::new();
    cpu.status = 0b0100_0001;
    cpu.check_register_z_and_n(0);
    assert!(cpu.status & 0b0000_0010 != 0);
    assert!(cpu.status & 0b1000_0000 == 0);
    // the other six bits are untouched
    assert_eq!(cpu.status & 0b0111_1101, 0b0100_0001);
}

#[test]
fn flag_unit_negative_value_sets_negative_clears_zero() {
    let mut cpu = CPU::new();
    cpu.status = 0b0000_0011;
    cpu.check_register_z_and_n(0x80);
    assert!(cpu.status & 0b0000_0010 == 0);
    assert!(cpu.status & 0b1000_0000 != 0);
    assert_eq!(cpu.status & 0b0111_1101, 0b0000_0001);
}

#[test]
fn flag_unit_plain_value_clears_both() {
    let mut cpu = CPU::new();
    cpu.status = 0b1000_0010;
    cpu.check_register_z_and_n(0x05);
    assert!(cpu.status & 0b0000_0010 == 0);
    assert!(cpu.status & 0b1000_0000 == 0);
}

#[test]
fn inx_wraparound_updates_flags_each_step() {
    let mut cpu = CPU::new();
    cpu.load(vec![0xe8, 0x00]).unwrap();
    cpu.reset();
    cpu.register_x = 0xff;
    cpu.run();
    // 0xFF + 1 wraps to 0x00: Zero set, Negative clear
    assert_eq!(cpu.register_x, 0x00);
    assert!(cpu.status & 0b0000_0010 != 0);
    assert!(cpu.status & 0b1000_0000 == 0);

    let mut cpu2 = CPU::new();
    cpu2.load(vec![0xe8, 0xe8, 0x00]).unwrap();
    cpu2.reset();
    cpu2.register_x = 0xff;
    cpu2.run();
    // a second increment reaches 0x01: both bits clear
    assert_eq!(cpu2.register_x, 0x01);
    assert!(cpu2.status & 0b0000_0010 == 0);
    assert!(cpu2.status & 0b1000_0000 == 0);
}

#[test]
fn indirect_x_stays_on_zero_page() {
    let mut cpu = CPU::new();
    cpu.program_counter = 0x0200;
    cpu.mem_write(0x0200, 0xff); // pointer byte p
    cpu.register_x = 0x01; // p + x wraps to 0x00
    cpu.mem_write(0x0000, 0x34);
    cpu.mem_write(0x0001, 0x12);
    assert_eq!(cpu.get_operand_address(&AddressingMode::Indirect_X), 0x1234);

    // the pointer's own successor wraps within the zero page
    let mut cpu2 = CPU::new();
    cpu2.program_counter = 0x0200;
    cpu2.mem_write(0x0200, 0xfe);
    cpu2.register_x = 0x01; // pointer 0xFF; high byte comes from 0x00, not 0x100
    cpu2.mem_write(0x00ff, 0x78);
    cpu2.mem_write(0x0000, 0x56);
    cpu2.mem_write(0x0100, 0xaa); // a decoy on page 1 that must not be read
    assert_eq!(cpu2.get_operand_address(&AddressingMode::Indirect_X), 0x5678);
}

#[test]
fn indirect_y_wraps_pointer_and_final_sum() {
    let mut cpu = CPU::new();
    cpu.program_counter = 0x0200;
    cpu.mem_write(0x0200, 0xff); // zero-page pointer p = 0xFF
    cpu.mem_write(0x00ff, 0xff); // low byte of the base
    cpu.mem_write(0x0000, 0xff); // high byte, fetched from (p + 1) mod 256
    cpu.mem_write(0x0100, 0xaa); // decoy on page 1
    cpu.register_y = 0x02; // base 0xFFFF + 2 wraps to 0x0001
    assert_eq!(cpu.get_operand_address(&AddressingMode::Indirect_Y), 0x0001);
}

#[test]
fn zero_page_indexed_wraps_within_one_byte() {
    let mut cpu = CPU::new();
    cpu.program_counter = 0x0200;
    cpu.mem_write(0x0200, 0xff);
    cpu.register_x = 0x10;
    assert_eq!(cpu.get_operand_address(&AddressingMode::ZeroPage_X), 0x000f);
    cpu.register_y = 0x02;
    assert_eq!(cpu.get_operand_address(&AddressingMode::ZeroPage_Y), 0x0001);
}

#[test]
fn absolute_indexed_wraps_within_sixteen_bits() {
    let mut cpu = CPU::new();
    cpu.program_counter = 0x0200;
    cpu.mem_write(0x0200, 0xff);
    cpu.mem_write(0x0201, 0xff);
    cpu.register_x = 0x02;
    assert_eq!(cpu.get_operand_address(&AddressingMode::Absolute_X), 0x0001);
    cpu.register_y = 0x05;
    assert_eq!(cpu.get_operand_address(&AddressingMode::Absolute_Y), 0x0004);
    assert_eq!(cpu.get_operand_address(&AddressingMode::Absolute), 0xffff);
    assert_eq!(cpu.get_operand_address(&AddressingMode::Immediate), 0x0200);
}

#[test]
fn lda_absolute_reads_the_addressed_byte() {
    let mut cpu = CPU::new();
    cpu.mem_write(0x1234, 0x99);
    cpu.load_and_run(vec![0xad, 0x34, 0x12, 0x00]).unwrap();
    assert_eq!(cpu.register_a, 0x99);
    assert!(cpu.status & 0b1000_0000 != 0); // 0x99 has bit 7 set
    assert!(cpu.status & 0b0000_0010 == 0);
}

#[test]
fn sixteen_bit_memory_access_is_little_endian() {
    let mut cpu = CPU::new();
    cpu.mem_write_u16(0x0010, 0xabcd);
    assert_eq!(cpu.mem_read(0x0010), 0xcd);
    assert_eq!(cpu.mem_read(0x0011), 0xab);
    assert_eq!(cpu.mem_read_u16(0x0010), 0xabcd);
}

#[test]
fn sixteen_bit_memory_access_wraps_at_top_of_memory() {
    let mut cpu = CPU::new();
    cpu.mem_write_u16(0xffff, 0x1234);
    assert_eq!(cpu.mem_read(0xffff), 0x34);
    assert_eq!(cpu.mem_read(0x0000), 0x12);
    assert_eq!(cpu.mem_read_u16(0xffff), 0x1234);
}

#[test]
fn load_sets_reset_vector_and_copies_program() {
    let mut cpu = CPU::new();
    cpu.load(vec![0xa9, 0x07, 0x00]).unwrap();
    assert_eq!(cpu.mem_read_u16(0xfffc), 0x8000);
    assert_eq!(cpu.mem_read(0x8000), 0xa9);
    assert_eq!(cpu.mem_read(0x8001), 0x07);
    assert_eq!(cpu.mem_read(0x8002), 0x00);
    cpu.reset();
    assert_eq!(cpu.program_counter, 0x8000);
}

#[test]
fn load_rejects_program_longer_than_the_space_above_base() {
    let mut cpu = CPU::new();
    let too_long = vec![0u8; 0x8001];
    assert_eq!(cpu.load(too_long), Err(CpuError::OutOfRangeLoad));
    // the largest size that fits is accepted
    let just_fits = vec![0u8; 0x8000];
    assert_eq!(cpu.load(just_fits), Ok(()));
}

#[test]
fn run_reports_halt_and_fault_outcomes() {
    let mut cpu = CPU::new();
    assert_eq!(cpu.load_and_run(vec![0x00]), Ok(StepResult::Halted));

    let mut cpu2 = CPU::new();
    assert_eq!(cpu2.load_and_run(vec![0xff]), Ok(StepResult::Fault(0xff)));
}

#[test]
fn run_reports_continue_when_the_machine_never_halts() {
    let mut cpu = CPU::new();
    // every byte an increment opcode: the program counter wraps and the
    // machine cycles forever, so the loop stops at its step bound
    let rom = vec![0xe8; 0x10000];
    assert_eq!(cpu.interpret(rom), Ok(StepResult::Continue));
}

#[test]
fn interpret_runs_the_sequence_from_index_zero() {
    let mut cpu = CPU::new();
    cpu.register_y = 0x77;
    assert_eq!(cpu.interpret(vec![0xa9, 0x42, 0xaa, 0x00]), Ok(StepResult::Halted));
    assert_eq!(cpu.register_a, 0x42);
    assert_eq!(cpu.register_x, 0x42);
    // registers are not reset by the alternate entry point
    assert_eq!(cpu.register_y, 0x77);
}

#[test]
fn interpret_reads_zero_past_the_end_of_the_sequence() {
    let mut cpu = CPU::new();
    cpu.register_a = 0x09;
    // an empty sequence fetches a zero byte at once: halt
    assert_eq!(cpu.interpret(vec![]), Ok(StepResult::Halted));
    assert_eq!(cpu.register_a, 0x09);
}
