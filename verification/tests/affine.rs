use std::f32::consts::PI;

use gba_core::bios_affine::{bg_affine_set, obj_affine_set};
use gba_core::bios_hle::dispatch;
use gba_core::bios_waves::{cosine, sine, COSINES, SINES, WAVE_ONE};
use gba_core::bus::{EWRAM_START, IWRAM_START, OAM_START};
use gba_core::cpu::Executed;
use gba_core::{Bus, Cpu, StepResult};

const SRC: u32 = EWRAM_START;
const DST: u32 = EWRAM_START + 0x8000;

fn machine(src: u32, dst: u32, count: u32, stride: u32) -> (Cpu, Bus) {
    let mut cpu = Cpu::new();
    cpu.set_reg(0, src);
    cpu.set_reg(1, dst);
    cpu.set_reg(2, count);
    cpu.set_reg(3, stride);
    (cpu, Bus::new(Vec::new()))
}

fn wave(v: i64) -> f32 {
    let exact = v as f32;
    assert_eq!(exact as i64, v);
    exact / WAVE_ONE as f32
}

fn fixed(v: f32) -> u16 {
    (v * 256.0) as i32 as u16
}

fn rotation(sx: i16, sy: i16, angle: u8) -> [f32; 4] {
    let (sx, sy) = (sx as f32 / 256.0, sy as f32 / 256.0);
    let (sin, cos) = (wave(sine(angle)), wave(cosine(angle)));
    [cos * sx, -sin * sx, sin * sy, cos * sy]
}

fn reference(origin: i32, a: f32, b: f32, cx: i16, cy: i16) -> u32 {
    let at = origin as f32 / 256.0 - (a * cx as f32 + b * cy as f32);
    (at * 256.0) as i32 as u32
}

fn write_bg(bus: &mut Bus, at: u32, origin: (i32, i32), center: (i16, i16), scale: (i16, i16), angle: u16) {
    bus.write_u32(at, origin.0 as u32);
    bus.write_u32(at + 4, origin.1 as u32);
    for (i, v) in [center.0, center.1, scale.0, scale.1].into_iter().enumerate() {
        bus.write_u16(at + 8 + 2 * i as u32, v as u16);
    }
    bus.write_u16(at + 16, angle);
}

fn next(seed: &mut u64) -> u64 {
    *seed = seed.wrapping_mul(6364136223846793005).wrapping_add(1442695040888963407);
    *seed >> 16
}

#[test]
fn the_table_holds_sines_and_cosines() {
    for k in 0..256usize {
        let theta = k as f32 / 128.0 * PI;
        let (sin, cos) = theta.sin_cos();
        for (held, computed) in [(wave(SINES[k]), sin), (wave(COSINES[k]), cos)] {
            assert_eq!(held.is_sign_negative(), computed.is_sign_negative());
            let apart = (held.to_bits() as i64 - computed.to_bits() as i64).abs();
            assert!(apart <= 1, "{k}: {held} {computed}");
        }
    }
    assert_eq!((SINES[0], COSINES[0]), (0, WAVE_ONE));
    assert_eq!((SINES[64], SINES[192]), (WAVE_ONE, -WAVE_ONE));
    assert_eq!((sine(64), cosine(128)), (WAVE_ONE, -WAVE_ONE));
}

#[test]
fn sprite_parameters_are_those_of_single_precision() {
    let (mut cpu, mut bus) = machine(SRC, DST, 256, 2);
    let mut scales: Vec<i16> = vec![0, 1, -1, 2, 255, 256, -256, 257, 0x7FFF, -0x8000, -0x7FFF];
    let mut seed = 1;
    for _ in 0..120 {
        scales.push(next(&mut seed) as i16);
    }
    for (n, &sx) in scales.iter().enumerate() {
        let sy = scales[scales.len() - 1 - n];
        for k in 0..256u32 {
            bus.write_u16(SRC + 8 * k, sx as u16);
            bus.write_u16(SRC + 8 * k + 2, sy as u16);
            bus.write_u16(SRC + 8 * k + 4, (k << 8 | 0x5A) as u16);
        }
        obj_affine_set(&mut cpu, &mut bus);
        for k in 0..256u32 {
            for (i, v) in rotation(sx, sy, k as u8).into_iter().enumerate() {
                let got = bus.read_u16(DST + 8 * k + 2 * i as u32);
                assert_eq!(got, fixed(v), "{sx} {sy} {k} {i}");
            }
        }
    }
}

#[test]
fn background_parameters_are_those_of_single_precision() {
    let (mut cpu, mut bus) = machine(SRC, DST, 1, 0);
    let mut seed = 7;
    for n in 0..20_000 {
        let mut origin = (next(&mut seed) as i32, next(&mut seed) as i32);
        if n % 3 == 0 {
            origin = (origin.0 >> 12, origin.1 >> 20);
        }
        let center = (next(&mut seed) as i16, next(&mut seed) as i16);
        let scale = (next(&mut seed) as i16, next(&mut seed) as i16);
        let angle = next(&mut seed) as u16;
        write_bg(&mut bus, SRC, origin, center, scale, angle);
        bg_affine_set(&mut cpu, &mut bus);
        let [a, b, c, d] = rotation(scale.0, scale.1, (angle >> 8) as u8);
        for (i, v) in [a, b, c, d].into_iter().enumerate() {
            assert_eq!(bus.read_u16(DST + 2 * i as u32), fixed(v));
        }
        assert_eq!(bus.read_u32(DST + 8), reference(origin.0, a, b, center.0, center.1));
        assert_eq!(bus.read_u32(DST + 12), reference(origin.1, c, d, center.0, center.1));
    }
}

#[test]
fn a_reference_point_out_of_range_is_clamped() {
    let (mut cpu, mut bus) = machine(SRC, DST, 1, 0);
    write_bg(&mut bus, SRC, (i32::MAX, i32::MIN), (-0x8000, 0x7FFF), (0x7FFF, 0x7FFF), 0);
    bg_affine_set(&mut cpu, &mut bus);
    assert_eq!(bus.read_u32(DST + 8), 0x7FFF_FFFF);
    assert_eq!(bus.read_u32(DST + 12), 0x8000_0000);
}

#[test]
fn without_rotation_the_parameters_are_the_scales() {
    let (mut cpu, mut bus) = machine(SRC, OAM_START + 6, 2, 8);
    for (i, v) in [0x100u16, 0xFF00, 0x00FF, 0, 0x8000, 0x7FFF, 0, 0].into_iter().enumerate() {
        bus.write_u16(SRC + 2 * i as u32, v);
    }
    assert_eq!(dispatch(&mut cpu, &mut bus, 0x0F), Executed::Continue { extra_cycles: 0 });
    let params: Vec<u16> = (0..8).map(|i| bus.read_u16(OAM_START + 6 + 8 * i)).collect();
    assert_eq!(params, vec![0x100, 0, 0, 0xFF00, 0x8000, 0, 0, 0x7FFF]);
    assert_eq!(cpu.reg(0), SRC);
    assert_eq!(cpu.reg(2), 2);
}

#[test]
fn a_quarter_turn_swaps_the_axes() {
    let (mut cpu, mut bus) = machine(SRC, DST, 2, 0);
    write_bg(&mut bus, SRC, (0x1234, -0x4000), (120, 80), (0x100, 0x100), 0);
    write_bg(&mut bus, SRC + 20, (0, 0), (16, 0), (0x100, 0x200), 0x4000);
    assert_eq!(dispatch(&mut cpu, &mut bus, 0x0E), Executed::Continue { extra_cycles: 0 });
    assert_eq!(bus.read_u32(DST + 8), 0x1234u32.wrapping_sub(120 * 256));
    assert_eq!(bus.read_u32(DST + 12), (-0x4000i32 - 80 * 256) as u32);
    let second: Vec<u16> = (0..4).map(|i| bus.read_u16(DST + 16 + 2 * i)).collect();
    assert_eq!(second, vec![0, 0xFF00, 0x200, 0]);
    assert_eq!(bus.read_u32(DST + 28), (-16 * 0x200i32) as u32);
}

#[test]
fn entries_follow_each_other_in_memory() {
    let (mut cpu, mut bus) = machine(SRC, SRC + 8, 2, 2);
    bus.write_u16(SRC, 0x300);
    bus.write_u16(SRC + 2, 0x500);
    obj_affine_set(&mut cpu, &mut bus);
    let second: Vec<u16> = (0..4).map(|i| bus.read_u16(SRC + 16 + 2 * i)).collect();
    assert_eq!(second, vec![0x300, 0, 0, 0]);
}

#[test]
fn no_entries_change_nothing() {
    let (mut cpu, mut bus) = machine(SRC, DST, 0, 2);
    bus.write_u16(DST, 0xABCD);
    bus.write_u32(IWRAM_START, 0xEF0E_0000);
    bus.write_u32(IWRAM_START + 4, 0xEF0F_0000);
    cpu.set_pc(IWRAM_START);
    assert_eq!(cpu.step(&mut bus), StepResult::Stepped);
    assert_eq!(cpu.step(&mut bus), StepResult::Stepped);
    assert_eq!(cpu.pc(), IWRAM_START + 8);
    assert_eq!(bus.read_u16(DST), 0xABCD);
}
