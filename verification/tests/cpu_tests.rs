use rustboy::EmuError;
use rustboy::cpu::CPU;
use rustboy::mmu::MMU;

fn plain_rom() -> Vec<u8> {
    // NoMBC cart, 2 ROM banks, no RAM.
    vec![0u8; 0x8000]
}

fn machine() -> (CPU, MMU) {
    let mmu = MMU::new(plain_rom()).unwrap();
    let cpu = CPU::new();
    (cpu, mmu)
}

#[test]
fn reset_registers() {
    let (cpu, _mmu) = machine();
    assert_eq!(cpu.a, 0x01);
    assert_eq!(cpu.f, 0xB0);
    assert_eq!(cpu.b, 0x00);
    assert_eq!(cpu.c, 0x13);
    assert_eq!(cpu.d, 0x00);
    assert_eq!(cpu.e, 0xD8);
    assert_eq!(cpu.h, 0x01);
    assert_eq!(cpu.l, 0x4D);
    assert_eq!(cpu.sp, 0xFFFE);
    assert_eq!(cpu.pc, 0x0100);
    assert!(!cpu.ime);
    assert!(!cpu.low_power_mode);
}

#[test]
fn daa_sample() {
    let (mut cpu, mut mmu) = machine();
    cpu.a = 0x15;
    cpu.f = 0x00;
    mmu.write_byte(0xC000, 0xC6).unwrap(); // ADD A, d8
    mmu.write_byte(0xC001, 0x27).unwrap();
    mmu.write_byte(0xC002, 0x27).unwrap(); // DAA
    cpu.pc = 0xC000;
    let c1 = cpu.execute_next(&mut mmu).unwrap();
    assert_eq!(c1, 8);
    assert_eq!(cpu.a, 0x3C);
    assert_eq!(cpu.f & 0x20, 0, "no carry out of the low nibble for 5 + 7");
    let c2 = cpu.execute_next(&mut mmu).unwrap();
    assert_eq!(c2, 4);
    assert_eq!(cpu.a, 0x42);
    assert_eq!(cpu.f & 0x80, 0, "Z clear");
    assert_eq!(cpu.f & 0x20, 0, "H clear");
    assert_eq!(cpu.f & 0x10, 0, "C clear");
}

#[test]
fn flag_low_nibble_zero_after_pop_af() {
    let (mut cpu, mut mmu) = machine();
    mmu.write_byte(0xC100, 0xFF).unwrap(); // would-be F with junk low bits
    mmu.write_byte(0xC101, 0x12).unwrap(); // A
    mmu.write_byte(0xC000, 0xF1).unwrap(); // POP AF
    cpu.sp = 0xC100;
    cpu.pc = 0xC000;
    let cycles = cpu.execute_next(&mut mmu).unwrap();
    assert_eq!(cycles, 12);
    assert_eq!(cpu.a, 0x12);
    assert_eq!(cpu.f, 0xF0, "the low nibble of F is forced to zero");
    assert_eq!(cpu.f & 0x0F, 0);
}

#[test]
fn illegal_opcode_reports_address() {
    let (mut cpu, mut mmu) = machine();
    mmu.write_byte(0xC000, 0xD3).unwrap();
    cpu.pc = 0xC000;
    let r = cpu.execute_next(&mut mmu);
    assert_eq!(r, Err(EmuError::IllegalOpcode { opcode: 0xD3, pc: 0xC000 }));
}

#[test]
fn canonical_cycle_counts() {
    // Representative opcodes against the canonical DMG table.
    let cases: [(Vec<u8>, u16); 10] = [
        (vec![0x00], 4),        // NOP
        (vec![0x41], 4),        // LD B, C
        (vec![0x46], 8),        // LD B, (HL)
        (vec![0x80], 4),        // ADD A, B
        (vec![0x86], 8),        // ADD A, (HL)
        (vec![0x01, 0, 0], 12), // LD BC, d16
        (vec![0xC3, 0, 0xC1], 16), // JP a16
        (vec![0xCD, 0, 0xC1], 24), // CALL a16
        (vec![0xCB, 0x00], 8),  // RLC B
        (vec![0xCB, 0x46], 12), // BIT 0, (HL)
    ];
    for (code, want) in cases.iter() {
        let (mut cpu, mut mmu) = machine();
        for (i, b) in code.iter().enumerate() {
            mmu.write_byte(0xC000 + i as u16, *b).unwrap();
        }
        cpu.pc = 0xC000;
        cpu.sp = 0xD000;
        let got = cpu.execute_next(&mut mmu).unwrap();
        assert_eq!(got, *want, "opcode bytes {:?}", code);
    }
}

#[test]
fn conditional_jump_cycles() {
    // JR NZ taken costs 12, not taken 8.
    let (mut cpu, mut mmu) = machine();
    mmu.write_byte(0xC000, 0x20).unwrap();
    mmu.write_byte(0xC001, 0x05).unwrap();
    cpu.pc = 0xC000;
    cpu.f = 0x00; // Z clear: taken
    assert_eq!(cpu.execute_next(&mut mmu).unwrap(), 12);
    assert_eq!(cpu.pc, 0xC007);
    let (mut cpu, mut mmu) = machine();
    mmu.write_byte(0xC000, 0x20).unwrap();
    mmu.write_byte(0xC001, 0x05).unwrap();
    cpu.pc = 0xC000;
    cpu.f = 0x80; // Z set: not taken
    assert_eq!(cpu.execute_next(&mut mmu).unwrap(), 8);
    assert_eq!(cpu.pc, 0xC002);
}

#[test]
fn sixteen_bit_results_wrap() {
    // INC HL at 0xFFFF wraps to 0, ADD HL,HL keeps the low sixteen bits.
    let (mut cpu, mut mmu) = machine();
    mmu.write_byte(0xC000, 0x23).unwrap(); // INC HL
    cpu.h = 0xFF;
    cpu.l = 0xFF;
    cpu.pc = 0xC000;
    cpu.execute_next(&mut mmu).unwrap();
    assert_eq!(cpu.h, 0x00);
    assert_eq!(cpu.l, 0x00);

    let (mut cpu, mut mmu) = machine();
    mmu.write_byte(0xC000, 0x29).unwrap(); // ADD HL, HL
    cpu.h = 0x90;
    cpu.l = 0x01;
    cpu.pc = 0xC000;
    cpu.execute_next(&mut mmu).unwrap();
    // 0x9001 + 0x9001 == 0x12002; the low sixteen bits are 0x2002.
    assert_eq!(cpu.h, 0x20);
    assert_eq!(cpu.l, 0x02);
    assert_ne!(cpu.f & 0x10, 0, "carry out of bit fifteen");
}

#[test]
fn interrupt_dispatch() {
    let (mut cpu, mut mmu) = machine();
    cpu.ime = true;
    cpu.pc = 0x1234;
    cpu.sp = 0xD000;
    mmu.write_byte(0xFFFF, 0x01).unwrap(); // IE: VBLANK
    mmu.write_byte(0xFF0F, 0x01).unwrap(); // IF: VBLANK pending
    let cycles = cpu.execute_next(&mut mmu).unwrap();
    assert_eq!(cycles, 20);
    assert_eq!(cpu.pc, 0x0040);
    assert!(!cpu.ime);
    assert_eq!(mmu.read_byte(0xFF0F) & 0x01, 0, "pending bit acknowledged");
    assert_eq!(mmu.read_byte(0xCFFE), 0x34);
    assert_eq!(mmu.read_byte(0xCFFF), 0x12);
}

#[test]
fn halt_idles_at_four_cycles() {
    let (mut cpu, mut mmu) = machine();
    cpu.low_power_mode = true;
    mmu.write_byte(0xFF0F, 0x00).unwrap();
    mmu.write_byte(0xFFFF, 0x00).unwrap();
    let pc = cpu.pc;
    assert_eq!(cpu.execute_next(&mut mmu).unwrap(), 4);
    assert_eq!(cpu.pc, pc, "no fetch while halted");
}

#[test]
fn serial_debug_hook_collects_bytes() {
    let (mut cpu, mut mmu) = machine();
    mmu.write_byte(0xC000, 0x00).unwrap(); // NOP
    cpu.pc = 0xC000;
    mmu.write_byte(0xFF01, b'P').unwrap();
    mmu.write_byte(0xFF02, 0x81).unwrap();
    cpu.execute_next(&mut mmu).unwrap();
    assert_eq!(mmu.serial_output().as_slice(), b"P");
    assert_eq!(mmu.read_byte(0xFF02), 0x00, "transfer flag cleared");
}

#[test]
fn ei_takes_effect_after_next_instruction() {
    let (mut cpu, mut mmu) = machine();
    mmu.write_byte(0xC000, 0xFB).unwrap(); // EI
    mmu.write_byte(0xC001, 0x00).unwrap(); // NOP
    cpu.pc = 0xC000;
    cpu.execute_next(&mut mmu).unwrap();
    assert!(!cpu.ime, "not yet enabled right after EI");
    cpu.execute_next(&mut mmu).unwrap();
    assert!(cpu.ime, "enabled once the next instruction retires");
}

#[test]
fn daa_round_trip_over_all_decimal_pairs() {
    // For every pair of packed-decimal bytes, ADD then DAA yields a
    // packed-decimal byte again, the decimal sum modulo one hundred,
    // with the carry flag telling whether it reached one hundred.
    let (mut cpu, mut mmu) = machine();
    mmu.write_byte(0xC000, 0xC6).unwrap(); // ADD A, d8
    mmu.write_byte(0xC002, 0x27).unwrap(); // DAA
    for a_dec in 0..100u32 {
        for n_dec in 0..100u32 {
            let a = (((a_dec / 10) << 4) | (a_dec % 10)) as u8;
            let n = (((n_dec / 10) << 4) | (n_dec % 10)) as u8;
            cpu.a = a;
            cpu.f = 0;
            cpu.pc = 0xC000;
            mmu.write_byte(0xC001, n).unwrap();
            cpu.execute_next(&mut mmu).unwrap();
            cpu.execute_next(&mut mmu).unwrap();
            let q = cpu.a as u32;
            assert!(q & 0x0F <= 9 && (q >> 4) <= 9, "{} + {} left {:02X}", a_dec, n_dec, q);
            assert_eq!(
                (q >> 4) * 10 + (q & 0x0F),
                (a_dec + n_dec) % 100,
                "{} + {}",
                a_dec,
                n_dec
            );
            assert_eq!(cpu.f & 0x10 != 0, a_dec + n_dec >= 100, "{} + {}", a_dec, n_dec);
        }
    }
}
