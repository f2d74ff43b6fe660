use std::sync::mpsc::{channel, Receiver, Sender};

use chippy::instruction::{Instruction, ParseError};
use chippy::machine::{printable, step_is_due, LoadError, Machine, MachineError};
use chippy::screen::ScreenUpdate;

struct Wires {
    display: Receiver<ScreenUpdate>,
    collision: Sender<bool>,
    keypad: Sender<u16>,
}

fn machine(program: &[u8]) -> (Machine, Wires) {
    let (display_tx, display_rx) = channel();
    let (collision_tx, collision_rx) = channel();
    let (keypad_tx, keypad_rx) = channel();
    let machine = Machine::load(program, display_tx, collision_rx, keypad_rx).expect("program fits");
    (machine, Wires { display: display_rx, collision: collision_tx, keypad: keypad_tx })
}

fn words(words: &[u16]) -> Vec<u8> {
    words.iter().flat_map(|w| [(w >> 8) as u8, (w & 0xFF) as u8]).collect()
}

#[test]
fn new_machine_is_zeroed_with_the_counter_at_the_load_address() {
    let (display_tx, _display_rx) = channel();
    let (_collision_tx, collision_rx) = channel();
    let (_keypad_tx, keypad_rx) = channel();
    let m = Machine::new(display_tx, collision_rx, keypad_rx);
    assert_eq!(m.ip(), 0x200);
    assert_eq!(m.index(), 0);
    assert_eq!(m.keys(), 0);
    assert_eq!(m.delay_timer(), 0);
    assert_eq!(m.sound_timer(), 0);
    assert!(m.stack().is_empty());
    assert!((0..16).all(|r| m.reg(r) == 0));
    assert!((0..0x1000).all(|a| m.mem(a) == 0));
}

#[test]
fn load_puts_the_program_at_the_load_address() {
    let (m, _wires) = machine(&[0xAB, 0xCD, 0xEF]);
    assert_eq!(m.mem(0x1FF), 0);
    assert_eq!(m.mem(0x200), 0xAB);
    assert_eq!(m.mem(0x201), 0xCD);
    assert_eq!(m.mem(0x202), 0xEF);
    assert_eq!(m.mem(0x203), 0);
    assert_eq!(m.ip(), 0x200);
}

#[test]
fn load_takes_a_program_that_just_fits_and_refuses_a_longer_one() {
    let exact = vec![0x11u8; 0x1000 - 0x200];
    let (m, _wires) = machine(&exact);
    assert_eq!(m.mem(0xFFF), 0x11);
    let (display_tx, _display_rx) = channel();
    let (_collision_tx, collision_rx) = channel();
    let (_keypad_tx, keypad_rx) = channel();
    let too_long = vec![0u8; 0x1000 - 0x200 + 1];
    assert_eq!(
        Machine::load(&too_long, display_tx, collision_rx, keypad_rx).err(),
        Some(LoadError::ProgramTooLarge)
    );
}

#[test]
fn clear_sends_one_clear_and_moves_on_by_two() {
    let (mut m, wires) = machine(&words(&[0x00E0]));
    assert_eq!(m.step(), Ok(()));
    assert_eq!(wires.display.try_recv(), Ok(ScreenUpdate::Clear));
    assert!(wires.display.try_recv().is_err());
    assert_eq!(m.ip(), 0x202);
}

#[test]
fn set_then_add_immediate_leaves_eight() {
    let (mut m, _wires) = machine(&words(&[0x6005, 0x7003]));
    assert_eq!(m.step(), Ok(()));
    assert_eq!(m.step(), Ok(()));
    assert_eq!(m.reg(0), 8);
    assert_eq!(m.ip(), 0x204);
}

#[test]
fn draw_sends_the_sprite_and_takes_the_answer_for_the_flag() {
    let (mut m, wires) = machine(&words(&[0xA300, 0xD001]));
    m.mem_set(0x300, 0xFF);
    m.reg_set(0xF, 7);
    wires.collision.send(false).unwrap();
    assert_eq!(m.step(), Ok(()));
    assert_eq!(m.index(), 0x300);
    assert_eq!(m.step(), Ok(()));
    assert_eq!(wires.display.try_recv(), Ok(ScreenUpdate::Draw { bytes: vec![0xFF], coords: (0, 0) }));
    assert!(wires.display.try_recv().is_err());
    assert_eq!(m.reg(0xF), 0);
    assert_eq!(m.ip(), 0x204);
}

#[test]
fn draw_of_five_rows_sends_five_bytes_and_sets_the_flag_on_collision() {
    let (mut m, wires) = machine(&words(&[0xA300, 0xD125]));
    for (k, byte) in [0xFFu8, 0x81, 0x42, 0x24, 0x18].into_iter().enumerate() {
        m.mem_set(0x300 + k as u16, byte);
    }
    m.reg_set(1, 60);
    m.reg_set(2, 200);
    wires.collision.send(true).unwrap();
    assert_eq!(m.step(), Ok(()));
    assert_eq!(m.step(), Ok(()));
    assert_eq!(
        wires.display.try_recv(),
        Ok(ScreenUpdate::Draw { bytes: vec![0xFF, 0x81, 0x42, 0x24, 0x18], coords: (60, 200) })
    );
    assert_eq!(m.reg(0xF), 1);
}

#[test]
fn call_then_return_comes_back_behind_the_call() {
    let (mut m, _wires) = machine(&words(&[0x2204, 0x0000, 0x00EE]));
    assert_eq!(m.step(), Ok(()));
    assert_eq!(m.ip(), 0x204);
    assert_eq!(m.stack(), &vec![0x202]);
    assert_eq!(m.step(), Ok(()));
    assert_eq!(m.ip(), 0x202);
    assert!(m.stack().is_empty());
}

#[test]
fn nested_calls_return_in_reverse_order() {
    let (mut m, _wires) = machine(&words(&[0x2204, 0x1200, 0x2208, 0x00EE, 0x00EE]));
    for expected in [0x204u16, 0x208, 0x206, 0x202, 0x200] {
        assert_eq!(m.step(), Ok(()));
        assert_eq!(m.ip(), expected);
    }
}

#[test]
fn return_on_an_empty_stack_fails_and_changes_nothing() {
    let (mut m, _wires) = machine(&words(&[0x00EE]));
    assert_eq!(m.step(), Err(MachineError::StackUnderflow));
    assert_eq!(m.ip(), 0x200);
}

#[test]
fn unassigned_word_fails_with_the_word() {
    let (mut m, _wires) = machine(&words(&[0x0FFF]));
    assert_eq!(m.step(), Err(MachineError::Decode(ParseError::InvalidInstruction(0x0FFF))));
    assert_eq!(m.ip(), 0x200);
    assert_eq!(m.fetch(), Err(MachineError::Decode(ParseError::InvalidInstruction(0x0FFF))));
}

#[test]
fn fetch_reads_the_word_high_byte_first() {
    let (m, _wires) = machine(&[0x61, 0x2A]);
    assert_eq!(m.fetch(), Ok(Instruction::SETi { r: 1, v: 0x2A }));
}

#[test]
fn an_instruction_that_does_not_fit_in_memory_fails() {
    let (mut m, _wires) = machine(&words(&[0x1FFF]));
    assert_eq!(m.step(), Ok(()));
    assert_eq!(m.ip(), 0xFFF);
    assert_eq!(m.step(), Err(MachineError::AddressOutOfRange));
    assert_eq!(m.ip(), 0xFFF);
    assert_eq!(m.execute(Instruction::CLS, 0, false), Err(MachineError::AddressOutOfRange));
}

#[test]
fn the_last_word_of_memory_can_be_run() {
    let (mut m, _wires) = machine(&words(&[0x1FFE]));
    m.mem_set(0xFFE, 0x6A);
    m.mem_set(0xFFF, 0x55);
    assert_eq!(m.step(), Ok(()));
    assert_eq!(m.step(), Ok(()));
    assert_eq!(m.reg(0xA), 0x55);
    assert_eq!(m.ip(), 0x1000);
    assert_eq!(m.step(), Err(MachineError::AddressOutOfRange));
}

#[test]
fn skips_move_on_by_four_when_they_hold_and_by_two_when_not() {
    let cases: [(Instruction, bool); 8] = [
        (Instruction::SEi { r: 1, v: 7 }, true),
        (Instruction::SEi { r: 1, v: 8 }, false),
        (Instruction::SNEi { r: 1, v: 8 }, true),
        (Instruction::SNEi { r: 1, v: 7 }, false),
        (Instruction::SEr { r1: 1, r2: 2 }, true),
        (Instruction::SEr { r1: 1, r2: 3 }, false),
        (Instruction::SNEr { r1: 1, r2: 3 }, true),
        (Instruction::SNEr { r1: 1, r2: 2 }, false),
    ];
    for (instr, skips) in cases {
        let (mut m, _wires) = machine(&words(&[instr.encode()]));
        m.reg_set(1, 7);
        m.reg_set(2, 7);
        m.reg_set(3, 9);
        assert_eq!(m.step(), Ok(()));
        assert_eq!(m.ip(), if skips { 0x204 } else { 0x202 }, "{:?}", instr);
        assert_eq!((m.reg(1), m.reg(2), m.reg(3)), (7, 7, 9));
    }
}

#[test]
fn key_skips_compare_the_latch_with_the_operand() {
    for (word, keys, skips) in [(0xE49Eu16, 4u16, true), (0xE49E, 5, false), (0xE4A1, 5, true), (0xE4A1, 4, false)] {
        let (mut m, wires) = machine(&words(&[word]));
        wires.keypad.send(keys).unwrap();
        assert_eq!(m.step(), Ok(()));
        assert_eq!(m.keys(), keys);
        assert_eq!(m.ip(), if skips { 0x204 } else { 0x202 });
    }
}

#[test]
fn step_latches_the_latest_pending_key_only() {
    let (mut m, wires) = machine(&words(&[0x6000, 0x6000, 0x6000]));
    for key in [1u16, 2, 3] {
        wires.keypad.send(key).unwrap();
    }
    assert_eq!(m.step(), Ok(()));
    assert_eq!(m.keys(), 3);
    assert_eq!(m.step(), Ok(()));
    assert_eq!(m.keys(), 3);
    drop(wires.keypad);
    assert_eq!(m.step(), Ok(()));
    assert_eq!(m.keys(), 3);
}

#[test]
fn latch_keys_keeps_the_last_value_or_the_old_one() {
    let (mut m, _wires) = machine(&[]);
    m.latch_keys(&vec![9, 8, 7]);
    assert_eq!(m.keys(), 7);
    m.latch_keys(&vec![]);
    assert_eq!(m.keys(), 7);
    m.latch_keys(&vec![0]);
    assert_eq!(m.keys(), 0);
}

#[test]
fn jumps_replace_the_counter() {
    let (mut m, _wires) = machine(&words(&[0x1ABC]));
    assert_eq!(m.step(), Ok(()));
    assert_eq!(m.ip(), 0xABC);
    let (mut m, _wires) = machine(&words(&[0xBFFF]));
    m.reg_set(0, 0xFF);
    assert_eq!(m.step(), Ok(()));
    assert_eq!(m.ip(), 0x10FE);
}

#[test]
fn register_operations_compute_in_eight_bits() {
    let run = |word: u16, x: u8, y: u8| {
        let (mut m, _wires) = machine(&words(&[word]));
        m.reg_set(1, x);
        m.reg_set(2, y);
        m.reg_set(0xF, 0x99);
        assert_eq!(m.step(), Ok(()));
        assert_eq!(m.ip(), 0x202);
        (m.reg(1), m.reg(2), m.reg(0xF))
    };
    assert_eq!(run(0x8120, 3, 9), (9, 9, 0x99));
    assert_eq!(run(0x8121, 0b1100, 0b1010), (0b1110, 0b1010, 0x99));
    assert_eq!(run(0x8122, 0b1100, 0b1010), (0b1000, 0b1010, 0x99));
    assert_eq!(run(0x8123, 0b1100, 0b1010), (0b0110, 0b1010, 0x99));
    assert_eq!(run(0x8124, 255, 1), (0, 1, 1));
    assert_eq!(run(0x8124, 10, 20), (30, 20, 0));
    assert_eq!(run(0x8125, 0, 1), (255, 1, 1));
    assert_eq!(run(0x8125, 9, 4), (5, 4, 0));
    assert_eq!(run(0x8126, 0b101, 77), (0b10, 77, 1));
    assert_eq!(run(0x8126, 0b100, 77), (0b10, 77, 0));
    assert_eq!(run(0x8127, 4, 9), (5, 9, 0));
    assert_eq!(run(0x8127, 9, 4), (251, 4, 1));
    assert_eq!(run(0x812E, 0b1000_0001, 77), (0b10, 77, 1));
    assert_eq!(run(0x812E, 0b0100_0001, 77), (0b1000_0010, 77, 0));
    assert_eq!(run(0x71FF, 2, 0), (1, 0, 0x99));
}

#[test]
fn the_flag_wins_where_the_flag_register_is_the_target() {
    let (mut m, _wires) = machine(&words(&[0x8F14]));
    m.reg_set(0xF, 200);
    m.reg_set(1, 100);
    assert_eq!(m.step(), Ok(()));
    assert_eq!(m.reg(0xF), 1);
}

#[test]
fn random_is_masked_with_the_immediate() {
    let (mut m, _wires) = machine(&[]);
    assert_eq!(m.execute(Instruction::RND { r: 3, v: 0x0F }, 0xA7, false), Ok(()));
    assert_eq!(m.reg(3), 0x07);
    assert_eq!(m.ip(), 0x202);
    let (mut m, _wires) = machine(&words(&[0xC400, 0xC50F]));
    m.reg_set(4, 0xEE);
    m.reg_set(5, 0xEE);
    assert_eq!(m.step(), Ok(()));
    assert_eq!(m.reg(4), 0);
    assert_eq!(m.step(), Ok(()));
    assert!(m.reg(5) <= 0x0F);
}

#[test]
fn timers_are_set_read_and_counted_down() {
    let (mut m, _wires) = machine(&words(&[0xF115, 0xF218, 0xF307, 0xF40A]));
    m.reg_set(1, 2);
    m.reg_set(2, 1);
    assert_eq!(m.step(), Ok(()));
    assert_eq!(m.step(), Ok(()));
    assert_eq!((m.delay_timer(), m.sound_timer()), (2, 1));
    assert_eq!(m.step(), Ok(()));
    assert_eq!(m.reg(3), 2);
    // Waiting for a key changes nothing but the counter.
    assert_eq!(m.step(), Ok(()));
    assert_eq!(m.reg(4), 0);
    assert_eq!(m.ip(), 0x208);
    // Steps do not count the timers down.
    assert_eq!((m.delay_timer(), m.sound_timer()), (2, 1));
    m.decrement_timers();
    assert_eq!((m.delay_timer(), m.sound_timer()), (1, 0));
    m.decrement_timers();
    m.decrement_timers();
    assert_eq!((m.delay_timer(), m.sound_timer()), (0, 0));
}

#[test]
fn add_index_wraps_in_sixteen_bits() {
    let (mut m, _wires) = machine(&words(&[0xA123, 0xF11E]));
    m.reg_set(1, 0x10);
    assert_eq!(m.step(), Ok(()));
    assert_eq!(m.step(), Ok(()));
    assert_eq!(m.index(), 0x133);
    let (mut m, _wires) = machine(&[]);
    m.reg_set(1, 0xFF);
    for _ in 0..258 {
        assert_eq!(m.execute(Instruction::JP { a: 0x200 }, 0, false), Ok(()));
        assert_eq!(m.execute(Instruction::ADDI { r: 1 }, 0, false), Ok(()));
    }
    assert_eq!(m.index(), ((258u32 * 0xFF) % 0x10000) as u16);
}

#[test]
fn store_and_load_move_the_first_registers() {
    let (mut m, _wires) = machine(&words(&[0xA400, 0xF255, 0xA401, 0xF165]));
    m.reg_set(0, 10);
    m.reg_set(1, 11);
    m.reg_set(2, 12);
    m.reg_set(3, 13);
    m.mem_set(0x403, 0xEE);
    assert_eq!(m.step(), Ok(()));
    assert_eq!(m.step(), Ok(()));
    assert_eq!([m.mem(0x3FF), m.mem(0x400), m.mem(0x401), m.mem(0x402), m.mem(0x403)], [0, 10, 11, 12, 0xEE]);
    assert_eq!(m.step(), Ok(()));
    assert_eq!(m.step(), Ok(()));
    assert_eq!([m.reg(0), m.reg(1), m.reg(2), m.reg(3)], [11, 12, 12, 13]);
    assert_eq!(m.index(), 0x401);
    assert_eq!(m.ip(), 0x208);
}

#[test]
fn memory_operations_outside_memory_fail_and_change_nothing() {
    for word in [0xF155u16, 0xF165, 0xD002] {
        let (mut m, wires) = machine(&words(&[0xAFFF, word]));
        m.reg_set(0, 5);
        assert_eq!(m.step(), Ok(()));
        assert_eq!(m.step(), Err(MachineError::AddressOutOfRange));
        assert_eq!(m.ip(), 0x202);
        assert_eq!(m.mem(0xFFF), 0);
        assert!(wires.display.try_recv().is_err());
    }
    // One byte at the last address is inside memory.
    let (mut m, wires) = machine(&words(&[0xAFFF, 0xF055, 0xD001, 0xD000]));
    m.reg_set(0, 5);
    wires.collision.send(false).unwrap();
    wires.collision.send(false).unwrap();
    assert_eq!(m.step(), Ok(()));
    assert_eq!(m.step(), Ok(()));
    assert_eq!(m.mem(0xFFF), 5);
    assert_eq!(m.step(), Ok(()));
    assert_eq!(wires.display.try_recv(), Ok(ScreenUpdate::Draw { bytes: vec![5], coords: (5, 5) }));
    assert_eq!(m.step(), Ok(()));
    assert_eq!(wires.display.try_recv(), Ok(ScreenUpdate::Draw { bytes: vec![], coords: (5, 5) }));
}

#[test]
fn sprite_update_reads_memory_at_the_index() {
    let (mut m, _wires) = machine(&words(&[0xA200]));
    assert_eq!(m.step(), Ok(()));
    m.reg_set(3, 12);
    m.reg_set(4, 34);
    assert_eq!(m.sprite_update(3, 4, 2), Ok(ScreenUpdate::Draw { bytes: vec![0xA2, 0x00], coords: (12, 34) }));
    assert_eq!(m.execute(Instruction::LDI { a: 0xFFF }, 0, false), Ok(()));
    assert_eq!(m.sprite_update(3, 4, 2), Err(MachineError::AddressOutOfRange));
}

#[test]
fn a_gone_display_stops_the_machine_where_it_stands() {
    let (mut m, wires) = machine(&words(&[0x00E0]));
    drop(wires.display);
    assert_eq!(m.step(), Err(MachineError::ChannelDisconnected));
    assert_eq!(m.ip(), 0x200);
    let (mut m, wires) = machine(&words(&[0xD001]));
    drop(wires.collision);
    m.reg_set(0xF, 9);
    assert_eq!(m.step(), Err(MachineError::ChannelDisconnected));
    assert_eq!(m.ip(), 0x200);
    assert_eq!(m.reg(0xF), 9);
    assert_eq!(wires.display.try_recv(), Ok(ScreenUpdate::Draw { bytes: vec![0], coords: (0, 0) }));
}

#[test]
fn a_gone_display_does_not_matter_to_other_instructions() {
    let (mut m, wires) = machine(&words(&[0x6A01]));
    drop(wires.display);
    drop(wires.collision);
    assert_eq!(m.step(), Ok(()));
    assert_eq!(m.reg(0xA), 1);
}

#[test]
fn the_next_step_is_due_once_the_interval_has_passed() {
    assert!(!step_is_due(500, 0));
    assert!(!step_is_due(500, 1_999_999));
    assert!(step_is_due(500, 2_000_000));
    assert!(step_is_due(500, 2_000_001));
    assert!(!step_is_due(3, 333_333_333));
    assert!(step_is_due(3, 333_333_334));
    assert!(step_is_due(1, 1_000_000_000));
    assert!(!step_is_due(1, 999_999_999));
    assert!(!step_is_due(0, u64::MAX));
    assert!(step_is_due(u32::MAX, u64::MAX));
    assert!(step_is_due(u32::MAX, 1));
}

#[test]
fn bytes_show_as_themselves_or_as_a_dot() {
    assert_eq!(printable(0x1F), '.');
    assert_eq!(printable(0x20), ' ');
    assert_eq!(printable(b'A'), 'A');
    assert_eq!(printable(0x7E), '~');
    assert_eq!(printable(0x7F), '.');
    assert_eq!(printable(0xFF), '.');
}
