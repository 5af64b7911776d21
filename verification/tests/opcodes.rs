use chip8::cpu::Cpu;
use chip8::error::EmuError;
use chip8::interp::{decode, decode_0, decode_8, decode_f, execute, fetch, step};
use chip8::quirk::Quirks;
use frand::Rand;

fn fresh() -> Cpu {
    Cpu::new([0; 16])
}

fn exec(cpu: &mut Cpu, quirks: &Quirks, op: u16) -> Result<(), EmuError> {
    cpu.opcode = op;
    execute(cpu, quirks, 0)
}

fn lit(cpu: &Cpu) -> Vec<usize> {
    (0..cpu.display_buffer.len()).filter(|k| cpu.display_buffer[*k]).collect()
}

#[test]
fn clear_turns_every_pixel_off() {
    let mut cpu = fresh();
    cpu.display_buffer[0] = true;
    cpu.display_buffer[2047] = true;
    assert_eq!(exec(&mut cpu, &Quirks::new(), 0x00E0), Ok(()));
    assert_eq!(lit(&cpu), Vec::<usize>::new());
    assert_eq!(cpu.display_buffer.len(), 2048);
}

#[test]
fn return_on_an_empty_stack_is_an_underflow() {
    let mut cpu = fresh();
    let before = cpu.clone();
    assert_eq!(exec(&mut cpu, &Quirks::new(), 0x00EE), Err(EmuError::StackUnderflow));
    cpu.opcode = before.opcode;
    assert_eq!(cpu, before);
}

#[test]
fn return_pops_the_last_address() {
    let mut cpu = fresh();
    cpu.stack = vec![0x300, 0x456];
    assert_eq!(exec(&mut cpu, &Quirks::new(), 0x00EE), Ok(()));
    assert_eq!(cpu.pc, 0x456);
    assert_eq!(cpu.stack, vec![0x300]);
}

#[test]
fn scroll_down_moves_rows_and_wraps_at_the_end() {
    let mut cpu = fresh();
    cpu.display_buffer[3] = true;
    cpu.display_buffer[31 * 64 + 5] = true;
    assert_eq!(exec(&mut cpu, &Quirks::new(), 0x00C2), Ok(()));
    assert_eq!(lit(&cpu), vec![64 + 5, 2 * 64 + 3]);
}

#[test]
fn scroll_down_uses_the_hires_row_length() {
    let mut cpu = fresh();
    cpu.set_resolution(true);
    cpu.display_buffer[3] = true;
    assert_eq!(exec(&mut cpu, &Quirks::new(), 0x00C1), Ok(()));
    assert_eq!(lit(&cpu), vec![128 + 3]);
}

#[test]
fn scroll_down_by_zero_rows_changes_nothing() {
    let mut cpu = fresh();
    cpu.display_buffer[77] = true;
    assert_eq!(exec(&mut cpu, &Quirks::new(), 0x00C0), Ok(()));
    assert_eq!(lit(&cpu), vec![77]);
}

#[test]
fn scroll_right_moves_four_places_and_wraps() {
    let mut cpu = fresh();
    cpu.display_buffer[3] = true;
    cpu.display_buffer[2047] = true;
    assert_eq!(exec(&mut cpu, &Quirks::new(), 0x00FB), Ok(()));
    assert_eq!(lit(&cpu), vec![3, 7]);
}

#[test]
fn scroll_left_moves_four_places_and_wraps() {
    let mut cpu = fresh();
    cpu.display_buffer[3] = true;
    cpu.display_buffer[10] = true;
    assert_eq!(exec(&mut cpu, &Quirks::new(), 0x00FC), Ok(()));
    assert_eq!(lit(&cpu), vec![6, 2047]);
}

#[test]
fn exit_is_reported_and_changes_nothing() {
    let mut cpu = fresh();
    cpu.opcode = 0x00FD;
    let before = cpu.clone();
    assert_eq!(execute(&mut cpu, &Quirks::new(), 0), Err(EmuError::Exit));
    assert_eq!(cpu, before);
}

#[test]
fn switching_to_the_current_resolution_keeps_the_bitmap() {
    let mut cpu = fresh();
    cpu.display_buffer[9] = true;
    assert_eq!(exec(&mut cpu, &Quirks::new(), 0x00FE), Ok(()));
    assert!(!cpu.hires);
    assert_eq!(lit(&cpu), vec![9]);
    cpu.set_resolution(true);
    cpu.display_buffer[8000] = true;
    assert_eq!(exec(&mut cpu, &Quirks::new(), 0x00FF), Ok(()));
    assert!(cpu.hires);
    assert_eq!(lit(&cpu), vec![8000]);
}

#[test]
fn switching_to_lores_gives_a_blank_small_bitmap() {
    let mut cpu = fresh();
    cpu.set_resolution(true);
    cpu.display_buffer[9] = true;
    assert_eq!(exec(&mut cpu, &Quirks::new(), 0x00FE), Ok(()));
    assert!(!cpu.hires);
    assert_eq!(cpu.display_buffer, vec![false; 2048]);
}

#[test]
fn undefined_system_words_are_invalid() {
    for op in [0x0000u16, 0x0123, 0x00E1, 0x01E0, 0x0FEE, 0x00B0, 0x00FA] {
        let mut cpu = fresh();
        cpu.opcode = op;
        let before = cpu.clone();
        assert_eq!(decode_0(&mut cpu), Err(EmuError::InvalidOpcode(op)));
        assert_eq!(cpu, before);
    }
}

#[test]
fn jump_sets_the_program_counter() {
    let mut cpu = fresh();
    assert_eq!(exec(&mut cpu, &Quirks::new(), 0x1ABC), Ok(()));
    assert_eq!(cpu.pc, 0xABC);
}

#[test]
fn call_pushes_the_program_counter() {
    let mut cpu = fresh();
    cpu.pc = 0x202;
    assert_eq!(exec(&mut cpu, &Quirks::new(), 0x2ABC), Ok(()));
    assert_eq!(cpu.pc, 0xABC);
    assert_eq!(cpu.stack, vec![0x202]);
}

#[test]
fn call_succeeds_on_a_stack_of_sixteen_and_fails_on_seventeen() {
    let mut cpu = fresh();
    cpu.stack = vec![0x222; 16];
    assert_eq!(exec(&mut cpu, &Quirks::new(), 0x2ABC), Ok(()));
    assert_eq!(cpu.stack.len(), 17);
    assert_eq!(cpu.pc, 0xABC);
    assert_eq!(exec(&mut cpu, &Quirks::new(), 0x2DEF), Err(EmuError::StackOverflow));
    assert_eq!(cpu.stack.len(), 17);
    assert_eq!(cpu.pc, 0xABC);
}

#[test]
fn skip_if_equal_to_constant() {
    let mut cpu = fresh();
    cpu.v[4] = 0x42;
    assert_eq!(exec(&mut cpu, &Quirks::new(), 0x3442), Ok(()));
    assert_eq!(cpu.pc, 0x202);
    assert_eq!(exec(&mut cpu, &Quirks::new(), 0x3443), Ok(()));
    assert_eq!(cpu.pc, 0x202);
}

#[test]
fn skip_if_not_equal_to_constant() {
    let mut cpu = fresh();
    cpu.v[4] = 0x42;
    assert_eq!(exec(&mut cpu, &Quirks::new(), 0x4442), Ok(()));
    assert_eq!(cpu.pc, 0x200);
    assert_eq!(exec(&mut cpu, &Quirks::new(), 0x4443), Ok(()));
    assert_eq!(cpu.pc, 0x202);
}

#[test]
fn skip_if_registers_equal() {
    let mut cpu = fresh();
    cpu.v[1] = 7;
    cpu.v[2] = 7;
    cpu.v[3] = 8;
    assert_eq!(exec(&mut cpu, &Quirks::new(), 0x5120), Ok(()));
    assert_eq!(cpu.pc, 0x202);
    assert_eq!(exec(&mut cpu, &Quirks::new(), 0x5130), Ok(()));
    assert_eq!(cpu.pc, 0x202);
}

#[test]
fn skip_if_registers_differ() {
    let mut cpu = fresh();
    cpu.v[1] = 7;
    cpu.v[2] = 7;
    cpu.v[3] = 8;
    assert_eq!(exec(&mut cpu, &Quirks::new(), 0x9120), Ok(()));
    assert_eq!(cpu.pc, 0x200);
    assert_eq!(exec(&mut cpu, &Quirks::new(), 0x9130), Ok(()));
    assert_eq!(cpu.pc, 0x202);
}

#[test]
fn register_skips_with_a_low_nibble_are_invalid() {
    for op in [0x5001u16, 0x512F, 0x9001, 0x9128] {
        let mut cpu = fresh();
        cpu.opcode = op;
        let before = cpu.clone();
        assert_eq!(execute(&mut cpu, &Quirks::new(), 0), Err(EmuError::InvalidOpcode(op)));
        assert_eq!(cpu, before);
    }
}

#[test]
fn a_skip_that_leaves_the_program_counter_range_is_a_fault() {
    let mut cpu = fresh();
    cpu.pc = 0xFFFE;
    cpu.v[4] = 0x42;
    assert_eq!(exec(&mut cpu, &Quirks::new(), 0x3442), Err(EmuError::IndexOutOfRange));
    assert_eq!(cpu.pc, 0xFFFE);
    assert_eq!(exec(&mut cpu, &Quirks::new(), 0x3443), Ok(()));
    assert_eq!(cpu.pc, 0xFFFE);
}

#[test]
fn add_constant_adds_modulo_256() {
    let mut cpu = fresh();
    cpu.v[3] = 0xF0;
    assert_eq!(exec(&mut cpu, &Quirks::new(), 0x7325), Ok(()));
    assert_eq!(cpu.v[3], 0x15);
    assert_eq!(cpu.v[0xF], 0);
}

#[test]
fn copy_register() {
    let mut cpu = fresh();
    cpu.v[2] = 0x99;
    cpu.opcode = 0x8120;
    assert_eq!(decode_8(&mut cpu, &Quirks::new(), 1, 2), Ok(()));
    assert_eq!(cpu.v[1], 0x99);
}

#[test]
fn logic_operations_keep_the_flag_by_default() {
    let quirks = Quirks::new();
    let mut cpu = fresh();
    cpu.v[0xF] = 1;
    cpu.v[1] = 0b1100;
    cpu.v[2] = 0b1010;
    assert_eq!(exec(&mut cpu, &quirks, 0x8121), Ok(()));
    assert_eq!(cpu.v[1], 0b1110);
    cpu.v[1] = 0b1100;
    assert_eq!(exec(&mut cpu, &quirks, 0x8122), Ok(()));
    assert_eq!(cpu.v[1], 0b1000);
    cpu.v[1] = 0b1100;
    assert_eq!(exec(&mut cpu, &quirks, 0x8123), Ok(()));
    assert_eq!(cpu.v[1], 0b0110);
    assert_eq!(cpu.v[0xF], 1);
}

#[test]
fn logic_operations_clear_the_flag_under_the_quirk() {
    let mut quirks = Quirks::new();
    quirks.logic = true;
    for op in [0x8121u16, 0x8122, 0x8123] {
        let mut cpu = fresh();
        cpu.v[0xF] = 1;
        cpu.v[1] = 0b1100;
        cpu.v[2] = 0b1010;
        assert_eq!(exec(&mut cpu, &quirks, op), Ok(()));
        assert_eq!(cpu.v[0xF], 0);
    }
}

#[test]
fn add_into_the_flag_register_leaves_the_carry() {
    let mut cpu = fresh();
    cpu.v[0xF] = 0xF0;
    cpu.v[1] = 0x20;
    assert_eq!(exec(&mut cpu, &Quirks::new(), 0x8F14), Ok(()));
    assert_eq!(cpu.v[0xF], 1);
}

#[test]
fn subtract_without_borrow_sets_the_flag() {
    let mut cpu = fresh();
    cpu.v[1] = 0x05;
    cpu.v[2] = 0x05;
    assert_eq!(exec(&mut cpu, &Quirks::new(), 0x8125), Ok(()));
    assert_eq!(cpu.v[1], 0x00);
    assert_eq!(cpu.v[0xF], 1);
}

#[test]
fn reverse_subtract() {
    let mut cpu = fresh();
    cpu.v[1] = 0x02;
    cpu.v[2] = 0x0A;
    assert_eq!(exec(&mut cpu, &Quirks::new(), 0x8127), Ok(()));
    assert_eq!(cpu.v[1], 0x08);
    assert_eq!(cpu.v[0xF], 1);
    cpu.v[1] = 0x0B;
    assert_eq!(exec(&mut cpu, &Quirks::new(), 0x8127), Ok(()));
    assert_eq!(cpu.v[1], 0xFF);
    assert_eq!(cpu.v[0xF], 0);
}

#[test]
fn shift_left_reports_the_high_bit() {
    let mut cpu = fresh();
    cpu.v[1] = 0b1100_0001;
    cpu.v[2] = 0x01;
    assert_eq!(exec(&mut cpu, &Quirks::new(), 0x812E), Ok(()));
    assert_eq!(cpu.v[1], 0b1000_0010);
    assert_eq!(cpu.v[0xF], 1);
    assert_eq!(exec(&mut cpu, &Quirks::new(), 0x812E), Ok(()));
    assert_eq!(cpu.v[1], 0b0000_0100);
    assert_eq!(cpu.v[0xF], 1);
    assert_eq!(exec(&mut cpu, &Quirks::new(), 0x812E), Ok(()));
    assert_eq!(cpu.v[1], 0b0000_1000);
    assert_eq!(cpu.v[0xF], 0);
}

#[test]
fn shift_left_copies_vy_when_the_quirk_is_off() {
    let mut quirks = Quirks::new();
    quirks.shift = false;
    let mut cpu = fresh();
    cpu.v[1] = 0xFF;
    cpu.v[2] = 0x41;
    assert_eq!(exec(&mut cpu, &quirks, 0x812E), Ok(()));
    assert_eq!(cpu.v[1], 0x82);
    assert_eq!(cpu.v[0xF], 0);
}

#[test]
fn undefined_register_operations_are_invalid() {
    for n in [0x8u16, 0x9, 0xA, 0xB, 0xC, 0xD, 0xF] {
        let mut cpu = fresh();
        cpu.opcode = 0x8120 | n;
        let before = cpu.clone();
        assert_eq!(
            decode_8(&mut cpu, &Quirks::new(), 1, 2),
            Err(EmuError::InvalidOpcode(0x8120 | n))
        );
        assert_eq!(cpu, before);
    }
}

#[test]
fn set_index() {
    let mut cpu = fresh();
    assert_eq!(exec(&mut cpu, &Quirks::new(), 0xA123), Ok(()));
    assert_eq!(cpu.i, 0x123);
}

#[test]
fn jump_with_offset_adds_vx_under_the_quirk() {
    let mut cpu = fresh();
    cpu.v[0] = 0x05;
    cpu.v[2] = 0x10;
    assert_eq!(exec(&mut cpu, &Quirks::new(), 0xB234), Ok(()));
    assert_eq!(cpu.pc, 0x244);
}

#[test]
fn jump_with_offset_adds_v0_without_the_quirk() {
    let mut quirks = Quirks::new();
    quirks.jump = false;
    let mut cpu = fresh();
    cpu.v[0] = 0x05;
    cpu.v[2] = 0x10;
    assert_eq!(exec(&mut cpu, &quirks, 0xB234), Ok(()));
    assert_eq!(cpu.pc, 0x239);
}

#[test]
fn jump_with_offset_may_leave_memory() {
    let mut cpu = fresh();
    cpu.v[0xF] = 0xFF;
    assert_eq!(exec(&mut cpu, &Quirks::new(), 0xBFFF), Ok(()));
    assert_eq!(cpu.pc, 0x0FFF + 0xFF);
}

#[test]
fn random_masks_the_given_byte() {
    let mut cpu = fresh();
    cpu.opcode = 0xC10F;
    assert_eq!(execute(&mut cpu, &Quirks::new(), 0xAB), Ok(()));
    assert_eq!(cpu.v[1], 0x0B);
    cpu.opcode = 0xC2F0;
    assert_eq!(execute(&mut cpu, &Quirks::new(), 0xAB), Ok(()));
    assert_eq!(cpu.v[2], 0xA0);
}

#[test]
fn random_from_the_generator_stays_under_the_mask() {
    let mut rng = Rand::with_seed(42);
    let mut cpu = fresh();
    for _ in 0..200 {
        cpu.opcode = 0xC10F;
        assert_eq!(decode(&mut cpu, &Quirks::new(), &mut rng), Ok(()));
        assert_eq!(cpu.v[1] & 0xF0, 0);
    }
}

#[test]
fn random_from_the_generator_varies() {
    let mut rng = Rand::with_seed(42);
    let mut cpu = fresh();
    let mut seen = [false; 256];
    for _ in 0..4000 {
        cpu.opcode = 0xC1FF;
        assert_eq!(decode(&mut cpu, &Quirks::new(), &mut rng), Ok(()));
        seen[cpu.v[1] as usize] = true;
    }
    assert!(seen.iter().filter(|s| **s).count() > 200);
}

#[test]
fn decode_leaves_the_generator_alone_for_other_instructions() {
    let mut used = Rand::with_seed(5);
    let mut untouched = Rand::with_seed(5);
    let mut cpu = fresh();
    cpu.opcode = 0x6122;
    assert_eq!(decode(&mut cpu, &Quirks::new(), &mut used), Ok(()));
    assert_eq!(cpu.v[1], 0x22);
    assert_eq!(used.gen::<u64>(), untouched.gen::<u64>());
}

#[test]
fn skip_if_key_down() {
    let mut cpu = fresh();
    cpu.v[1] = 0x5;
    cpu.keys[5] = true;
    assert_eq!(exec(&mut cpu, &Quirks::new(), 0xE19E), Ok(()));
    assert_eq!(cpu.pc, 0x202);
    cpu.keys[5] = false;
    assert_eq!(exec(&mut cpu, &Quirks::new(), 0xE19E), Ok(()));
    assert_eq!(cpu.pc, 0x202);
}

#[test]
fn skip_if_key_up() {
    let mut cpu = fresh();
    cpu.v[1] = 0x5;
    cpu.keys[5] = true;
    assert_eq!(exec(&mut cpu, &Quirks::new(), 0xE1A1), Ok(()));
    assert_eq!(cpu.pc, 0x200);
    cpu.keys[5] = false;
    assert_eq!(exec(&mut cpu, &Quirks::new(), 0xE1A1), Ok(()));
    assert_eq!(cpu.pc, 0x202);
}

#[test]
fn a_key_number_past_the_keypad_is_a_fault() {
    for op in [0xE19Eu16, 0xE1A1] {
        let mut cpu = fresh();
        cpu.v[1] = 0x10;
        cpu.opcode = op;
        let before = cpu.clone();
        assert_eq!(execute(&mut cpu, &Quirks::new(), 0), Err(EmuError::IndexOutOfRange));
        assert_eq!(cpu, before);
    }
}

#[test]
fn undefined_key_instructions_are_invalid() {
    let mut cpu = fresh();
    cpu.v[1] = 0xFF;
    assert_eq!(exec(&mut cpu, &Quirks::new(), 0xE100), Err(EmuError::InvalidOpcode(0xE100)));
    assert_eq!(exec(&mut cpu, &Quirks::new(), 0xE19F), Err(EmuError::InvalidOpcode(0xE19F)));
}

#[test]
fn timers_are_read_and_written() {
    let mut cpu = fresh();
    cpu.delay_timer = 0x33;
    assert_eq!(exec(&mut cpu, &Quirks::new(), 0xF107), Ok(()));
    assert_eq!(cpu.v[1], 0x33);
    cpu.v[2] = 0x44;
    assert_eq!(exec(&mut cpu, &Quirks::new(), 0xF215), Ok(()));
    assert_eq!(cpu.delay_timer, 0x44);
    cpu.v[3] = 0x55;
    assert_eq!(exec(&mut cpu, &Quirks::new(), 0xF318), Ok(()));
    assert_eq!(cpu.sound_timer, 0x55);
}

#[test]
fn add_to_index_may_pass_the_end_of_memory() {
    let mut cpu = fresh();
    cpu.i = 0x0FFF;
    cpu.v[1] = 0x01;
    assert_eq!(exec(&mut cpu, &Quirks::new(), 0xF11E), Ok(()));
    assert_eq!(cpu.i, 0x1000);
    assert_eq!(cpu.v[0xF], 0);
}

#[test]
fn add_to_index_past_sixteen_bits_is_a_fault() {
    let mut cpu = fresh();
    cpu.i = 0xFFFF;
    cpu.v[1] = 0x01;
    assert_eq!(exec(&mut cpu, &Quirks::new(), 0xF11E), Err(EmuError::IndexOutOfRange));
    assert_eq!(cpu.i, 0xFFFF);
    cpu.i = 0xFF00;
    cpu.v[1] = 0xFF;
    assert_eq!(exec(&mut cpu, &Quirks::new(), 0xF11E), Ok(()));
    assert_eq!(cpu.i, 0xFFFF);
}

#[test]
fn key_wait_at_the_very_start_of_memory_is_a_fault() {
    let mut cpu = fresh();
    cpu.pc = 1;
    cpu.opcode = 0xF10A;
    let before = cpu.clone();
    assert_eq!(decode_f(&mut cpu, &Quirks::new(), 1), Err(EmuError::IndexOutOfRange));
    assert_eq!(cpu, before);
    cpu.keys[3] = true;
    let before = cpu.clone();
    assert_eq!(decode_f(&mut cpu, &Quirks::new(), 1), Err(EmuError::IndexOutOfRange));
    assert_eq!(cpu, before);
}

#[test]
fn font_addresses() {
    let mut cpu = fresh();
    cpu.v[1] = 0x0A;
    assert_eq!(exec(&mut cpu, &Quirks::new(), 0xF129), Ok(()));
    assert_eq!(cpu.i, 50);
    assert_eq!(exec(&mut cpu, &Quirks::new(), 0xF130), Ok(()));
    assert_eq!(cpu.i, 130);
    cpu.v[1] = 0xFF;
    assert_eq!(exec(&mut cpu, &Quirks::new(), 0xF129), Ok(()));
    assert_eq!(cpu.i, 1275);
    assert_eq!(exec(&mut cpu, &Quirks::new(), 0xF130), Ok(()));
    assert_eq!(cpu.i, 1355);
}

#[test]
fn decimal_digits_are_stored() {
    let mut cpu = fresh();
    cpu.v[1] = 254;
    cpu.i = 0x300;
    assert_eq!(exec(&mut cpu, &Quirks::new(), 0xF133), Ok(()));
    assert_eq!(&cpu.memory[0x300..0x303], &[2, 5, 4]);
    cpu.v[1] = 7;
    cpu.i = 4093;
    assert_eq!(exec(&mut cpu, &Quirks::new(), 0xF133), Ok(()));
    assert_eq!(&cpu.memory[4093..4096], &[0, 0, 7]);
}

#[test]
fn decimal_digits_past_the_end_of_memory_are_a_fault() {
    let mut cpu = fresh();
    cpu.v[1] = 254;
    cpu.i = 4094;
    cpu.opcode = 0xF133;
    let before = cpu.clone();
    assert_eq!(execute(&mut cpu, &Quirks::new(), 0), Err(EmuError::IndexOutOfRange));
    assert_eq!(cpu, before);
}

#[test]
fn store_registers_leaves_the_index_by_default() {
    let mut cpu = fresh();
    cpu.v = [1, 2, 3, 4, 5, 6, 7, 8, 9, 10, 11, 12, 13, 14, 15, 16];
    cpu.i = 0x300;
    assert_eq!(exec(&mut cpu, &Quirks::new(), 0xF255), Ok(()));
    assert_eq!(&cpu.memory[0x300..0x304], &[1, 2, 3, 0]);
    assert_eq!(cpu.i, 0x300);
}

#[test]
fn store_registers_advances_the_index_as_the_quirks_say() {
    let mut by_x = Quirks::new();
    by_x.memory_leave_i_unchanged = false;
    by_x.memory_increment_by_x = true;
    let mut cpu = fresh();
    cpu.i = 0x300;
    assert_eq!(exec(&mut cpu, &by_x, 0xF255), Ok(()));
    assert_eq!(cpu.i, 0x302);

    let mut by_x_plus_one = Quirks::new();
    by_x_plus_one.memory_leave_i_unchanged = false;
    by_x_plus_one.memory_increment_by_x = false;
    let mut cpu = fresh();
    cpu.i = 0x300;
    assert_eq!(exec(&mut cpu, &by_x_plus_one, 0xF255), Ok(()));
    assert_eq!(cpu.i, 0x303);

    let mut both = Quirks::new();
    both.memory_leave_i_unchanged = true;
    both.memory_increment_by_x = true;
    let mut cpu = fresh();
    cpu.i = 0x300;
    assert_eq!(exec(&mut cpu, &both, 0xF255), Ok(()));
    assert_eq!(cpu.i, 0x300);
}

#[test]
fn store_all_registers_at_the_end_of_memory() {
    let mut quirks = Quirks::new();
    quirks.memory_leave_i_unchanged = false;
    let mut cpu = fresh();
    cpu.v = [1, 2, 3, 4, 5, 6, 7, 8, 9, 10, 11, 12, 13, 14, 15, 16];
    cpu.i = 4080;
    assert_eq!(exec(&mut cpu, &quirks, 0xFF55), Ok(()));
    assert_eq!(&cpu.memory[4080..4096], &cpu.v);
    assert_eq!(cpu.i, 4096);
}

#[test]
fn store_registers_past_the_end_of_memory_is_a_fault() {
    let mut cpu = fresh();
    cpu.v = [1; 16];
    cpu.i = 4095;
    cpu.opcode = 0xF155;
    let before = cpu.clone();
    assert_eq!(execute(&mut cpu, &Quirks::new(), 0), Err(EmuError::IndexOutOfRange));
    assert_eq!(cpu, before);
}

#[test]
fn load_registers_reads_memory() {
    let mut quirks = Quirks::new();
    quirks.memory_leave_i_unchanged = false;
    let mut cpu = fresh();
    cpu.v = [0xEE; 16];
    cpu.memory[0x300] = 9;
    cpu.memory[0x301] = 8;
    cpu.memory[0x302] = 7;
    cpu.i = 0x300;
    assert_eq!(exec(&mut cpu, &quirks, 0xF165), Ok(()));
    assert_eq!(&cpu.v[0..3], &[9, 8, 0xEE]);
    assert_eq!(cpu.i, 0x302);
}

#[test]
fn load_registers_past_the_end_of_memory_is_a_fault() {
    let mut cpu = fresh();
    cpu.i = 4090;
    cpu.opcode = 0xF665;
    let before = cpu.clone();
    assert_eq!(execute(&mut cpu, &Quirks::new(), 0), Err(EmuError::IndexOutOfRange));
    assert_eq!(cpu, before);
}

#[test]
fn flag_registers_are_saved_and_restored() {
    let mut cpu = Cpu::new([0x77; 16]);
    cpu.v = [1, 2, 3, 4, 5, 6, 7, 8, 9, 10, 11, 12, 13, 14, 15, 16];
    assert_eq!(exec(&mut cpu, &Quirks::new(), 0xF275), Ok(()));
    assert_eq!(&cpu.flag[0..4], &[1, 2, 3, 0x77]);
    cpu.v = [0; 16];
    assert_eq!(exec(&mut cpu, &Quirks::new(), 0xF185), Ok(()));
    assert_eq!(&cpu.v[0..3], &[1, 2, 0]);
}

#[test]
fn undefined_timer_and_index_instructions_are_invalid() {
    for op in [0xF100u16, 0xF108, 0xF1FF, 0xF156] {
        let mut cpu = fresh();
        cpu.opcode = op;
        let before = cpu.clone();
        assert_eq!(decode_f(&mut cpu, &Quirks::new(), 1), Err(EmuError::InvalidOpcode(op)));
        assert_eq!(cpu, before);
    }
}

#[test]
fn fetch_at_the_end_of_memory_is_a_fault() {
    for pc in [4095u16, 4096, 0xFFFF] {
        let mut cpu = fresh();
        cpu.pc = pc;
        let before = cpu.clone();
        assert_eq!(fetch(&mut cpu), Err(EmuError::IndexOutOfRange));
        assert_eq!(cpu, before);
    }
    let mut cpu = fresh();
    cpu.pc = 4094;
    cpu.memory[4094] = 0x12;
    cpu.memory[4095] = 0x34;
    assert_eq!(fetch(&mut cpu), Ok(()));
    assert_eq!(cpu.opcode, 0x1234);
    assert_eq!(cpu.pc, 4096);
}

#[test]
fn step_stops_at_a_fetch_fault() {
    let mut rng = Rand::with_seed(1);
    let mut cpu = fresh();
    cpu.pc = 4095;
    cpu.opcode = 0x6155;
    let before = cpu.clone();
    assert_eq!(step(&mut cpu, &Quirks::new(), &mut rng), Err(EmuError::IndexOutOfRange));
    assert_eq!(cpu, before);
}

#[test]
fn step_runs_a_small_program() {
    let mut rng = Rand::with_seed(1);
    let quirks = Quirks::new();
    let mut cpu = fresh();
    let program = [0x60u8, 0x05, 0x61, 0x07, 0x80, 0x14, 0x00, 0xFD];
    assert_eq!(cpu.load_rom(&program), Ok(()));
    assert_eq!(step(&mut cpu, &quirks, &mut rng), Ok(()));
    assert_eq!(step(&mut cpu, &quirks, &mut rng), Ok(()));
    assert_eq!(step(&mut cpu, &quirks, &mut rng), Ok(()));
    assert_eq!(cpu.v[0], 12);
    assert_eq!(cpu.v[0xF], 0);
    assert_eq!(step(&mut cpu, &quirks, &mut rng), Err(EmuError::Exit));
    assert_eq!(cpu.pc, 0x208);
}
