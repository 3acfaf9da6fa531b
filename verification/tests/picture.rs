use gba_core::bus::{OAM_SIZE, PRAM_SIZE, VRAM_SIZE};
use gba_core::ppu::{
    bgr555_to_rgba, CYCLES_PER_FRAME, HBLANK_CYCLES, HDRAW_CYCLES, SCANLINE_CYCLES,
    TOTAL_SCANLINES,
};
use gba_core::ppu_bg::{
    map_entry_index, sample_affine_bg, sample_text_bg, sign_extend_28, BgRegisters,
};
use gba_core::ppu_color::{compose_pixel, expand5};
use gba_core::ppu_obj::{render_obj_line, sprite};
use gba_core::{Interrupt, InterruptControl, Ppu, FRAMEBUFFER_SIZE};

fn memories() -> (Vec<u8>, Vec<u8>, Vec<u8>) {
    let mut oam = vec![0u8; OAM_SIZE];
    for i in 0..128 {
        oam[i * 8 + 1] = 0x02;
    }
    (vec![0u8; VRAM_SIZE], vec![0u8; PRAM_SIZE], oam)
}

fn put16(mem: &mut [u8], at: usize, value: u16) {
    mem[at] = value as u8;
    mem[at + 1] = (value >> 8) as u8;
}

#[test]
fn the_times_of_a_picture_add_up() {
    assert_eq!(HDRAW_CYCLES + HBLANK_CYCLES, SCANLINE_CYCLES);
    assert_eq!(SCANLINE_CYCLES * TOTAL_SCANLINES as u64, CYCLES_PER_FRAME);
}

#[test]
fn channels_stretch_over_the_whole_range() {
    for c in 0..32u8 {
        assert_eq!(expand5(c), c << 3 | c >> 2);
    }
    assert_eq!(bgr555_to_rgba(0x7C1F), [0xFF, 0, 0xFF, 0xFF]);
}

#[test]
fn a_brighter_channel_stays_brighter() {
    for c in 0..31u16 {
        assert!(bgr555_to_rgba(c)[0] < bgr555_to_rgba(c + 1)[0]);
        assert!(bgr555_to_rgba(c << 5)[1] < bgr555_to_rgba((c + 1) << 5)[1]);
        assert!(bgr555_to_rgba(c << 10)[2] < bgr555_to_rgba((c + 1) << 10)[2]);
    }
    assert_eq!(bgr555_to_rgba(0x8421), bgr555_to_rgba(0x0421));
}

#[test]
fn scrolling_moves_a_text_background() {
    let (mut vram, mut pram, _) = memories();
    for (i, b) in vram.iter_mut().enumerate() {
        *b = (i * 31 + i / 7) as u8;
    }
    for (i, b) in pram.iter_mut().enumerate() {
        *b = (i * 13 + 1) as u8;
    }
    for cnt in [0x0000u16, 0x4880, 0x9F04, 0xC38C] {
        for (h, v, x, y) in [(0u16, 0u16, 5, 9), (7, 300, 239, 159), (511, 65535, 1000, 70000)] {
            let shown = sample_text_bg(cnt, h, v, x, y, &vram, &pram);
            let moved = sample_text_bg(cnt, 0, 0, x + h as usize, y + v as usize, &vram, &pram);
            assert_eq!(shown, moved);
            assert_eq!(shown, sample_text_bg(cnt, h, v, x + 512, y, &vram, &pram));
            assert_eq!(shown, sample_text_bg(cnt, h, v, x, y + 512, &vram, &pram));
        }
    }
    assert_eq!(map_entry_index(33, 65, 64), 5 * 1024 + 32 + 1);
}

#[test]
fn lines_are_drawn_one_by_one_or_all_at_once() {
    let (mut vram, mut pram, oam) = memories();
    for (i, b) in vram.iter_mut().enumerate() {
        *b = (i * 7 + i / 240) as u8;
    }
    for (i, b) in pram.iter_mut().enumerate() {
        *b = (i * 13) as u8;
    }
    let mut whole = Ppu::new();
    whole.write_u8(0, 0x04);
    let mut lines = Ppu::new();
    lines.write_u8(0, 0x04);
    whole.render_frame(&vram, &pram, &oam);
    for y in 0..228 {
        lines.render_scanline(y, &vram, &pram, &oam);
    }
    assert_eq!(whole.framebuffer().len(), FRAMEBUFFER_SIZE);
    assert!(whole.framebuffer() == lines.framebuffer());
    assert!(whole.framebuffer().iter().skip(3).step_by(4).all(|&a| a == 0xFF));
}

#[test]
fn a_line_leaves_the_others() {
    let (vram, pram, oam) = memories();
    let mut ppu = Ppu::new();
    ppu.write_u8(0, 0x03);
    ppu.clear_framebuffer([1, 2, 3, 4]);
    ppu.render_scanline(7, &vram, &pram, &oam);
    ppu.render_scanline(160, &vram, &pram, &oam);
    let fb = ppu.framebuffer();
    assert_eq!(&fb[6 * 960 + 956..6 * 960 + 960], &[1, 2, 3, 4]);
    assert_eq!(&fb[7 * 960..7 * 960 + 4], &[0, 0, 0, 0xFF]);
    assert_eq!(&fb[8 * 960..8 * 960 + 4], &[1, 2, 3, 4]);
}

#[test]
fn the_scan_goes_round() {
    let mut ppu = Ppu::new();
    let mut irq = InterruptControl::new();
    let mut entered = 0;
    for _ in 0..TOTAL_SCANLINES {
        if ppu.enter_next_line(&mut irq) {
            entered += 1;
            assert_eq!(ppu.vcount(), 160);
        }
    }
    assert_eq!(ppu.vcount(), 0);
    assert_eq!(entered, 1);
}

#[test]
fn status_flags_cannot_be_written() {
    let mut ppu = Ppu::new();
    ppu.write_u8(4, 0xFF);
    assert_eq!(ppu.read_u8(4), 0x38);
    ppu.write_u8(5, 0x00);
    assert_eq!(ppu.read_u8(4), 0x3C);
    ppu.write_u8(5, 0x21);
    assert_eq!((ppu.read_u8(4), ppu.read_u8(5)), (0x38, 0x21));
    ppu.write_u8(6, 0x55);
    assert_eq!(ppu.read_u8(6), 0);
}

#[test]
fn controls_read_back_byte_by_byte() {
    let mut ppu = Ppu::new();
    for off in [0u32, 1, 8, 9, 10, 11, 12, 13, 14, 15] {
        ppu.write_u8(off, 0x40 + off as u8);
    }
    for off in [0u32, 1, 8, 9, 10, 11, 12, 13, 14, 15] {
        assert_eq!(ppu.read_u8(off), 0x40 + off as u8);
    }
}

#[test]
fn a_display_that_cannot_wake_raises_nothing() {
    let mut ppu = Ppu::new();
    let mut irq = InterruptControl::new();
    irq.write_u8(0x200, 0x01);
    ppu.write_u8(4, 0x10);
    assert!(!ppu.can_wake(&irq));
    for _ in 0..TOTAL_SCANLINES {
        ppu.enter_hblank(&mut irq);
        ppu.enter_next_line(&mut irq);
    }
    assert!(!irq.raised());
    assert_eq!(irq.read_u8(0x202), 0x02);
    irq.request(Interrupt::VBlank);
    assert!(irq.raised());
}

#[test]
fn a_sprite_wins_at_equal_priority() {
    let (_, mut pram, _) = memories();
    put16(&mut pram, 0, 0x7C00);
    assert_eq!(compose_pixel(Some((0x001F, 1)), Some((0x03E0, 1)), &pram), [0, 0xFF, 0, 0xFF]);
    assert_eq!(compose_pixel(Some((0x001F, 1)), Some((0x03E0, 2)), &pram), [0xFF, 0, 0, 0xFF]);
    assert_eq!(compose_pixel(None, Some((0x03E0, 3)), &pram), [0, 0xFF, 0, 0xFF]);
    assert_eq!(compose_pixel(None, None, &pram), [0, 0, 0xFF, 0xFF]);
}

#[test]
fn the_lowest_sprite_index_wins() {
    let (mut vram, mut pram, mut oam) = memories();
    for b in vram[0x1_0000..0x1_0020].iter_mut() {
        *b = 0x11;
    }
    for b in vram[0x1_0020..0x1_0040].iter_mut() {
        *b = 0x22;
    }
    put16(&mut pram, 0x202, 0x001F);
    put16(&mut pram, 0x204, 0x03E0);
    for (i, (x, tile)) in [(4u16, 0u16), (0, 1)].into_iter().enumerate() {
        put16(&mut oam, i * 8, 0);
        put16(&mut oam, i * 8 + 2, x);
        put16(&mut oam, i * 8 + 4, tile);
    }
    let mut ppu = Ppu::new();
    ppu.write_u8(1, 0x10);
    ppu.render_scanline(0, &vram, &pram, &oam);
    let fb = ppu.framebuffer();
    assert_eq!(&fb[12..16], &[0, 0xFF, 0, 0xFF]);
    assert_eq!(&fb[16..20], &[0xFF, 0, 0, 0xFF]);
    assert_eq!(&fb[28..32], &[0xFF, 0, 0, 0xFF]);
    assert_eq!(&fb[48..52], &[0, 0, 0, 0xFF]);
}

#[test]
fn a_sprite_wraps_around_both_edges() {
    let (mut vram, mut pram, mut oam) = memories();
    for b in vram[0x1_0000..0x1_0020].iter_mut() {
        *b = 0x11;
    }
    put16(&mut pram, 0x202, 0x7FFF);
    put16(&mut oam, 0, 0x00FC);
    put16(&mut oam, 2, 0x01FC);
    let mut ppu = Ppu::new();
    ppu.write_u8(1, 0x10);
    ppu.render_frame(&vram, &pram, &oam);
    let fb = ppu.framebuffer();
    assert_eq!(fb[0], 0xFF);
    assert_eq!(fb[3 * 4], 0xFF);
    assert_eq!(fb[4 * 4], 0);
    assert_eq!(fb[3 * 960], 0xFF);
    assert_eq!(fb[4 * 960], 0);
}

#[test]
fn sprite_lines_repeat_every_256() {
    let (mut vram, mut pram, mut oam) = memories();
    put16(&mut oam, 0, 0x00FE);
    put16(&mut oam, 2, 3);
    put16(&mut oam, 4, 0);
    vram[0x1_0000 + 8] = 1;
    put16(&mut pram, 0x202, 0x0ABC);
    let line = render_obj_line(0, true, &oam, &vram, &pram);
    assert_eq!(line[3], Some((0x0ABC, 0)));
    assert_eq!(line, render_obj_line(256, true, &oam, &vram, &pram));
}

#[test]
fn sprite_attributes_are_decoded() {
    let s = sprite(0x6305, 0xB3FF, 0xA7FF);
    assert!(s.shown && s.affine && s.eight_bpp);
    assert_eq!(s.size, (32, 16));
    assert_eq!(s.area, (64, 32));
    assert_eq!((s.x, s.y), (0x1FF, 5));
    assert_eq!((s.group, s.tile, s.priority, s.palette), (25, 0x3FF, 1, 10));
    assert!(!sprite(0x0200, 0, 0).shown);
}

#[test]
fn an_affine_background_rounds_down_and_wraps() {
    let (mut vram, mut pram, _) = memories();
    vram[0x4000] = 1;
    vram[0x4000 + 63] = 2;
    put16(&mut pram, 2, 0x1111);
    put16(&mut pram, 4, 0x2222);
    let mut bg = BgRegisters {
        cnt: [0, 0, 0x0104, 0],
        hofs: [0; 4],
        vofs: [0; 4],
        pa: [0x100, 0],
        pb: [0, 0],
        pc: [0, 0],
        pd: [0x100, 0],
        x: [0x0FFF_FFFF, 0],
        y: [0x0FFF_FFFF, 0],
    };
    assert_eq!(sign_extend_28(0x0FFF_FFFF), -1);
    assert_eq!(sample_affine_bg(&bg, 2, 0, 0, &vram, &pram), None);
    assert_eq!(sample_affine_bg(&bg, 2, 1, 1, &vram, &pram), Some(0x1111));
    bg.cnt[2] = 0x2104;
    assert_eq!(sample_affine_bg(&bg, 2, 0, 0, &vram, &pram), Some(0x2222));
}
