use gba_core::bus::{OAM_SIZE, PRAM_SIZE, VRAM_SIZE};
use gba_core::ppu::{bgr555_to_rgba, AFFINE_REGS_START, TOTAL_SCANLINES};
use gba_core::ppu_bg::{map_entry_index, FRAME_BYTES, MODE5_HEIGHT, MODE5_WIDTH};
use gba_core::ppu_obj::{obj_size, OAM_ENTRIES, OBJ_PALETTE_BYTE_BASE, OBJ_TILE_VRAM_BASE};
use gba_core::{
    Interrupt, InterruptControl, Ppu, BYTES_PER_PIXEL, SCREEN_HEIGHT, SCREEN_WIDTH,
};

const WHITE: [u8; 4] = [0xFF, 0xFF, 0xFF, 0xFF];
const AFFINE_REGS_PER_BG: u32 = 0x10;
const DISPCNT_FRAME_SELECT: u16 = 1 << 4;
const DISPCNT_OBJ_1D: u16 = 1 << 6;
const FORCED_BLANK: u16 = 1 << 7;
const DISPCNT_BG0_ENABLE: u16 = 1 << 8;
const DISPCNT_OBJ_ENABLE: u16 = 1 << 12;
const DISPSTAT_VBLANK_IRQ: u16 = 1 << 3;
const DISPSTAT_HBLANK_IRQ: u16 = 1 << 4;
const DISPSTAT_VCOUNT_IRQ: u16 = 1 << 5;
const BGCNT_8BPP: u16 = 1 << 7;
const BGCNT_AFFINE_WRAP: u16 = 1 << 13;
const MAP_HFLIP: u16 = 1 << 10;
const OBJ_ATTR0_AFFINE: u16 = 1 << 8;
const OBJ_ATTR0_DISABLE: u16 = 1 << 9;
const OBJ_ATTR0_DOUBLE: u16 = 1 << 9;
const OBJ_ATTR0_8BPP: u16 = 1 << 13;
const OBJ_ATTR1_HFLIP: u16 = 1 << 12;
const OBJ_ATTR2_PRIORITY_SHIFT: u16 = 10;
const OBJ_ATTR2_PALBANK_SHIFT: u16 = 12;

fn all_rows_are(ppu: &Ppu, rgba: [u8; 4]) -> bool {
    ppu.framebuffer()
        .chunks_exact(BYTES_PER_PIXEL)
        .all(|px| px == rgba)
}

fn pixel(ppu: &Ppu, x: usize, y: usize) -> [u8; 4] {
    let i = (y * SCREEN_WIDTH + x) * BYTES_PER_PIXEL;
    ppu.framebuffer()[i..i + 4].try_into().unwrap()
}

#[test]
fn handles_reconoce_dispcnt_dispstat_y_vcount() {
    assert!(Ppu::handles(0x000));
    assert!(Ppu::handles(0x001));
    assert!(!Ppu::handles(0x002));
    assert!(Ppu::handles(0x004));
    assert!(Ppu::handles(0x005));
    assert!(Ppu::handles(0x006));
    assert!(Ppu::handles(0x007));
    assert!(Ppu::handles(0x008));
    assert!(Ppu::handles(0x00F));
    assert!(Ppu::handles(0x010));
    assert!(Ppu::handles(0x01F));
    assert!(Ppu::handles(0x020));
    assert!(Ppu::handles(0x03F));
    assert!(!Ppu::handles(0x040));
}

#[test]
fn dispcnt_almacena_y_devuelve_lo_escrito() {
    let mut ppu = Ppu::new();
    ppu.write_u8(0x000, 0x07);
    ppu.write_u8(0x001, 0x12);
    assert_eq!(ppu.read_u8(0x000), 0x07);
    assert_eq!(ppu.read_u8(0x001), 0x12);
    assert_eq!(ppu.mode(), 7, "los bits 0-2 (0b111) son el modo de vídeo");
}

#[test]
fn dispstat_solo_deja_escribir_los_enables_y_lyc() {
    let mut ppu = Ppu::new();
    ppu.write_u8(0x004, 0xFF);
    assert_eq!(ppu.read_u8(0x004), 0x38, "solo bits 3-5 escribibles");
    ppu.write_u8(0x005, 0x9C);
    assert_eq!(ppu.read_u8(0x005), 0x9C);
}

#[test]
fn vcount_es_de_solo_lectura() {
    let mut ppu = Ppu::new();
    ppu.write_u8(0x006, 0x55);
    ppu.write_u8(0x007, 0x55);
    assert_eq!(ppu.read_u8(0x006), 0);
    assert_eq!(ppu.read_u8(0x007), 0);
}

#[test]
fn enter_hblank_pone_el_flag_y_solicita_irq_si_esta_habilitada() {
    let mut ppu = Ppu::new();
    let mut irq = InterruptControl::new();
    irq.write_u8(0x200, 0xFF);

    ppu.enter_hblank(&mut irq);
    assert_ne!(ppu.read_u8(0x004) & 0x02, 0, "flag de H-Blank puesto");
    assert!(!irq.raised(), "sin enable de IRQ, no solicita");

    ppu.write_u8(0x004, DISPSTAT_HBLANK_IRQ as u8);
    ppu.enter_hblank(&mut irq);
    assert!(irq.raised(), "con enable, solicita la IRQ de H-Blank");
}

#[test]
fn enter_next_line_avanza_vcount_y_vuelve_a_cero_tras_la_ultima() {
    let mut ppu = Ppu::new();
    let mut irq = InterruptControl::new();
    for esperado in 1..TOTAL_SCANLINES {
        ppu.enter_next_line(&mut irq);
        assert_eq!(ppu.vcount(), esperado);
    }
    ppu.enter_next_line(&mut irq);
    assert_eq!(ppu.vcount(), 0, "tras la línea 227 se reinicia el frame");
}

#[test]
fn el_flag_de_vblank_se_activa_en_la_160_y_se_apaga_en_la_227() {
    let mut ppu = Ppu::new();
    let mut irq = InterruptControl::new();
    for _ in 0..159 {
        ppu.enter_next_line(&mut irq);
    }
    assert_eq!(ppu.vcount(), 159);
    assert_eq!(ppu.read_u8(0x004) & 0x01, 0, "la 159 no es V-Blank");
    ppu.enter_next_line(&mut irq);
    assert_eq!(ppu.vcount(), 160);
    assert_ne!(ppu.read_u8(0x004) & 0x01, 0, "la 160 es V-Blank");
    for _ in 160..227 {
        ppu.enter_next_line(&mut irq);
    }
    assert_eq!(ppu.vcount(), 227);
    assert_eq!(ppu.read_u8(0x004) & 0x01, 0, "la 227 ya no marca V-Blank");
}

#[test]
fn la_irq_de_vblank_se_solicita_al_entrar_en_la_linea_160() {
    let mut ppu = Ppu::new();
    let mut irq = InterruptControl::new();
    irq.write_u8(0x200, Interrupt::VBlank.bit() as u8);
    ppu.write_u8(0x004, DISPSTAT_VBLANK_IRQ as u8);
    for _ in 0..159 {
        ppu.enter_next_line(&mut irq);
    }
    assert!(!irq.raised(), "aún no se ha entrado en V-Blank");
    let entered = ppu.enter_next_line(&mut irq);
    assert!(entered, "enter_next_line señala la entrada en V-Blank");
    assert!(irq.raised(), "la IRQ de V-Blank se solicitó en la 160");
}

#[test]
fn la_irq_de_vcounter_se_solicita_en_la_linea_lyc() {
    let mut ppu = Ppu::new();
    let mut irq = InterruptControl::new();
    irq.write_u8(0x200, Interrupt::VCounter.bit() as u8);
    ppu.write_u8(0x005, 5);
    ppu.write_u8(0x004, DISPSTAT_VCOUNT_IRQ as u8);
    for _ in 0..4 {
        ppu.enter_next_line(&mut irq);
    }
    assert!(!irq.raised(), "todavía no es la línea 5");
    ppu.enter_next_line(&mut irq);
    assert_eq!(ppu.vcount(), 5);
    assert_ne!(ppu.read_u8(0x004) & 0x04, 0, "flag de coincidencia puesto");
    assert!(irq.raised(), "la IRQ de V-Counter se solicitó en la línea LYC");
}

#[test]
fn conversion_de_color_bgr555_casos_clave() {
    assert_eq!(bgr555_to_rgba(0x0000), [0x00, 0x00, 0x00, 0xFF]);
    assert_eq!(bgr555_to_rgba(0x7FFF), [0xFF, 0xFF, 0xFF, 0xFF]);
    assert_eq!(bgr555_to_rgba(0x001F), [0xFF, 0x00, 0x00, 0xFF]);
    assert_eq!(bgr555_to_rgba(0x03E0), [0x00, 0xFF, 0x00, 0xFF]);
    assert_eq!(bgr555_to_rgba(0x7C00), [0x00, 0x00, 0xFF, 0xFF]);
    assert_eq!(bgr555_to_rgba(0x8000), [0x00, 0x00, 0x00, 0xFF]);
}

#[test]
fn render_scanline_modo3_pinta_solo_su_fila() {
    let mut ppu = Ppu::new();
    ppu.write_u8(0x000, 0x03);
    let mut vram = vec![0u8; VRAM_SIZE];
    let pram = vec![0u8; PRAM_SIZE];
    let off = SCREEN_WIDTH * 2;
    vram[off..off + 2].copy_from_slice(&0x001Fu16.to_le_bytes());

    ppu.render_scanline(1, &vram, &pram, &[]);

    assert_eq!(pixel(&ppu, 0, 1), [0xFF, 0x00, 0x00, 0xFF], "fila 1 renderizada");
    assert_eq!(pixel(&ppu, 0, 0), [0x00, 0x00, 0x00, 0x00], "fila 0 intacta (sin renderizar)");
}

#[test]
fn render_frame_completo_vuelca_la_vram_en_modo_3() {
    let mut ppu = Ppu::new();
    ppu.write_u8(0x000, 0x03);
    let mut vram = vec![0u8; VRAM_SIZE];
    let pram = vec![0u8; PRAM_SIZE];
    vram[0..2].copy_from_slice(&0x001Fu16.to_le_bytes());
    let last = (SCREEN_WIDTH * SCREEN_HEIGHT - 1) * 2;
    vram[last..last + 2].copy_from_slice(&0x7C00u16.to_le_bytes());

    ppu.render_frame(&vram, &pram, &[]);

    assert_eq!(pixel(&ppu, 0, 0), [0xFF, 0x00, 0x00, 0xFF]);
    assert_eq!(pixel(&ppu, SCREEN_WIDTH - 1, SCREEN_HEIGHT - 1), [0x00, 0x00, 0xFF, 0xFF]);
}

#[test]
fn forced_blank_pinta_la_fila_blanca() {
    let mut ppu = Ppu::new();
    ppu.write_u8(0x000, 0x03 | FORCED_BLANK as u8);
    let mut vram = vec![0u8; VRAM_SIZE];
    vram[0..2].copy_from_slice(&0x001Fu16.to_le_bytes());
    let pram = vec![0u8; PRAM_SIZE];
    ppu.render_scanline(0, &vram, &pram, &[]);
    assert_eq!(pixel(&ppu, 0, 0), WHITE, "el forced blank ignora la VRAM");
}

#[test]
fn un_modo_invalido_pinta_el_backdrop() {
    let mut ppu = Ppu::new();
    ppu.write_u8(0x000, 0x06);
    let vram = vec![0u8; VRAM_SIZE];
    let mut pram = vec![0u8; PRAM_SIZE];
    pram[0..2].copy_from_slice(&0x03E0u16.to_le_bytes());
    ppu.render_frame(&vram, &pram, &[]);
    assert!(all_rows_are(&ppu, [0x00, 0xFF, 0x00, 0xFF]), "todo el backdrop verde");
}

#[test]
fn clear_framebuffer_rellena_todo() {
    let mut ppu = Ppu::new();
    ppu.clear_framebuffer([10, 20, 30, 0xFF]);
    assert!(all_rows_are(&ppu, [10, 20, 30, 0xFF]));
}

#[test]
fn bgcnt_almacena_los_cuatro_y_es_legible() {
    let mut ppu = Ppu::new();
    for bg in 0..4u32 {
        let off = 0x008 + bg * 2;
        ppu.write_u8(off, 0xCD);
        ppu.write_u8(off + 1, 0xAB);
        assert_eq!(ppu.read_u8(off), 0xCD, "BG{bg}CNT byte bajo");
        assert_eq!(ppu.read_u8(off + 1), 0xAB, "BG{bg}CNT byte alto");
    }
}

#[test]
fn los_scroll_son_de_solo_escritura() {
    let mut ppu = Ppu::new();
    ppu.write_u8(0x010, 0x34);
    ppu.write_u8(0x011, 0x01);
    ppu.write_u8(0x012, 0x78);
    assert_eq!(ppu.read_u8(0x010), 0);
    assert_eq!(ppu.read_u8(0x012), 0);
}

fn poner_fila0_tile_4bpp(vram: &mut [u8], char_base: usize, tile_num: usize, pal_index: u8) {
    let base = char_base + tile_num * 32;
    let nibble_par = pal_index;
    let byte = nibble_par | (pal_index << 4);
    for b in 0..4 {
        vram[base + b] = byte;
    }
}

fn poner_color_pram(pram: &mut [u8], i: usize, color: u16) {
    pram[i * 2..i * 2 + 2].copy_from_slice(&color.to_le_bytes());
}

#[test]
fn modo0_dibuja_un_tile_y_respeta_la_transparencia() {
    let mut ppu = Ppu::new();
    ppu.write_u8(0x000, 0x00);
    ppu.write_u8(0x001, 0x01);
    ppu.write_u8(0x008, 0x00);
    ppu.write_u8(0x009, 0x08);

    let mut vram = vec![0u8; VRAM_SIZE];
    let mut pram = vec![0u8; PRAM_SIZE];
    poner_fila0_tile_4bpp(&mut vram, 0, 1, 1);
    vram[0x4000..0x4002].copy_from_slice(&0x0001u16.to_le_bytes());
    poner_color_pram(&mut pram, 0, 0x7C00);
    poner_color_pram(&mut pram, 1, 0x001F);

    ppu.render_scanline(0, &vram, &pram, &[]);

    assert_eq!(pixel(&ppu, 0, 0), [0xFF, 0x00, 0x00, 0xFF], "píxel del tile 1");
    assert_eq!(pixel(&ppu, 7, 0), [0xFF, 0x00, 0x00, 0xFF]);
    assert_eq!(pixel(&ppu, 8, 0), [0x00, 0x00, 0xFF, 0xFF], "tile 0 transparente → backdrop");
}

#[test]
fn el_scroll_horizontal_desplaza_el_fondo() {
    let mut ppu = Ppu::new();
    ppu.write_u8(0x000, 0x00);
    ppu.write_u8(0x001, 0x01);
    ppu.write_u8(0x009, 0x08);
    ppu.write_u8(0x010, 8);

    let mut vram = vec![0u8; VRAM_SIZE];
    let mut pram = vec![0u8; PRAM_SIZE];
    poner_fila0_tile_4bpp(&mut vram, 0, 1, 1);
    vram[0x4002..0x4004].copy_from_slice(&0x0001u16.to_le_bytes());
    poner_color_pram(&mut pram, 0, 0x7C00);
    poner_color_pram(&mut pram, 1, 0x001F);

    ppu.render_scanline(0, &vram, &pram, &[]);

    assert_eq!(pixel(&ppu, 0, 0), [0xFF, 0x00, 0x00, 0xFF], "scroll trae el tile (1,0) a x=0");
}

#[test]
fn la_prioridad_decide_que_fondo_se_ve() {
    let mut ppu = Ppu::new();
    ppu.write_u8(0x000, 0x00);
    ppu.write_u8(0x001, 0x03);
    ppu.write_u8(0x008, 0x01);
    ppu.write_u8(0x009, 0x08);
    ppu.write_u8(0x00A, 0x00);
    ppu.write_u8(0x00B, 0x09);

    let mut vram = vec![0u8; VRAM_SIZE];
    let mut pram = vec![0u8; PRAM_SIZE];
    poner_fila0_tile_4bpp(&mut vram, 0, 1, 1);
    poner_fila0_tile_4bpp(&mut vram, 0, 2, 2);
    vram[0x4000..0x4002].copy_from_slice(&0x0001u16.to_le_bytes());
    vram[0x4800..0x4802].copy_from_slice(&0x0002u16.to_le_bytes());
    poner_color_pram(&mut pram, 0, 0x0000);
    poner_color_pram(&mut pram, 1, 0x001F);
    poner_color_pram(&mut pram, 2, 0x03E0);

    ppu.render_scanline(0, &vram, &pram, &[]);

    assert_eq!(pixel(&ppu, 0, 0), [0x00, 0xFF, 0x00, 0xFF], "gana la menor prioridad (BG1)");
}

#[test]
fn el_volteo_horizontal_de_la_entrada_de_mapa_se_aplica() {
    let mut ppu = Ppu::new();
    ppu.write_u8(0x000, 0x00);
    ppu.write_u8(0x001, 0x01);
    ppu.write_u8(0x009, 0x08);

    let mut vram = vec![0u8; VRAM_SIZE];
    let mut pram = vec![0u8; PRAM_SIZE];
    vram[32] = 0x01;
    vram[0x4000..0x4002].copy_from_slice(&(0x0001u16 | MAP_HFLIP).to_le_bytes());
    poner_color_pram(&mut pram, 0, 0x7C00);
    poner_color_pram(&mut pram, 1, 0x001F);

    ppu.render_scanline(0, &vram, &pram, &[]);

    assert_eq!(pixel(&ppu, 0, 0), [0x00, 0x00, 0xFF, 0xFF], "x=0 ya no es el píxel del tile");
    assert_eq!(pixel(&ppu, 7, 0), [0xFF, 0x00, 0x00, 0xFF], "el píxel rojo se volteó a x=7");
}

#[test]
fn modo0_en_8bpp_usa_la_paleta_de_256_colores() {
    let mut ppu = Ppu::new();
    ppu.write_u8(0x000, 0x00);
    ppu.write_u8(0x001, 0x01);
    ppu.write_u8(0x008, BGCNT_8BPP as u8);
    ppu.write_u8(0x009, 0x08);

    let mut vram = vec![0u8; VRAM_SIZE];
    let mut pram = vec![0u8; PRAM_SIZE];
    vram[64] = 5;
    vram[0x4000..0x4002].copy_from_slice(&0x0001u16.to_le_bytes());
    poner_color_pram(&mut pram, 0, 0x0000);
    poner_color_pram(&mut pram, 5, 0x001F);

    ppu.render_scanline(0, &vram, &pram, &[]);

    assert_eq!(pixel(&ppu, 0, 0), [0xFF, 0x00, 0x00, 0xFF], "8 bpp resuelve por índice directo");
}

#[test]
fn map_entry_index_ubica_los_screenblocks() {
    assert_eq!(map_entry_index(0, 0, 32), 0);
    assert_eq!(map_entry_index(31, 31, 32), 31 * 32 + 31);
    assert_eq!(map_entry_index(32, 0, 64), 1024);
    assert_eq!(map_entry_index(0, 32, 64), 2048);
}

#[test]
fn can_wake_exige_enable_en_dispstat_y_en_ie() {
    let mut ppu = Ppu::new();
    let mut irq = InterruptControl::new();
    ppu.write_u8(0x004, DISPSTAT_VBLANK_IRQ as u8);
    assert!(!ppu.can_wake(&irq), "sin IE no puede despertar");
    irq.write_u8(0x200, Interrupt::VBlank.bit() as u8);
    assert!(ppu.can_wake(&irq), "con ambos enables, sí");
}

fn oam_vacia() -> Vec<u8> {
    let mut oam = vec![0u8; OAM_SIZE];
    for i in 0..OAM_ENTRIES {
        oam[i * 8..i * 8 + 2].copy_from_slice(&OBJ_ATTR0_DISABLE.to_le_bytes());
    }
    oam
}

fn poner_sprite(oam: &mut [u8], i: usize, attr0: u16, attr1: u16, attr2: u16) {
    let base = i * 8;
    oam[base..base + 2].copy_from_slice(&attr0.to_le_bytes());
    oam[base + 2..base + 4].copy_from_slice(&attr1.to_le_bytes());
    oam[base + 4..base + 6].copy_from_slice(&attr2.to_le_bytes());
}

fn poner_color_obj_pram(pram: &mut [u8], i: usize, color: u16) {
    let off = OBJ_PALETTE_BYTE_BASE + i * 2;
    pram[off..off + 2].copy_from_slice(&color.to_le_bytes());
}

fn poner_obj_affine(oam: &mut [u8], group: usize, pa: u16, pb: u16, pc: u16, pd: u16) {
    let base = group * 32;
    oam[base + 0x06..base + 0x08].copy_from_slice(&pa.to_le_bytes());
    oam[base + 0x0E..base + 0x10].copy_from_slice(&pb.to_le_bytes());
    oam[base + 0x16..base + 0x18].copy_from_slice(&pc.to_le_bytes());
    oam[base + 0x1E..base + 0x20].copy_from_slice(&pd.to_le_bytes());
}

fn dispcnt(ppu: &mut Ppu, mode: u8, obj_enable: bool, one_d: bool) {
    let mut v = mode as u16;
    if obj_enable {
        v |= DISPCNT_OBJ_ENABLE;
    }
    if one_d {
        v |= DISPCNT_OBJ_1D;
    }
    ppu.write_u8(0x000, v as u8);
    ppu.write_u8(0x001, (v >> 8) as u8);
}

#[test]
fn un_sprite_se_dibuja_sobre_el_backdrop() {
    let mut ppu = Ppu::new();
    dispcnt(&mut ppu, 0, true, true);

    let mut vram = vec![0u8; VRAM_SIZE];
    let mut pram = vec![0u8; PRAM_SIZE];
    let mut oam = oam_vacia();

    poner_fila0_tile_4bpp(&mut vram, OBJ_TILE_VRAM_BASE, 0, 1);
    poner_color_pram(&mut pram, 0, 0x7C00);
    poner_color_obj_pram(&mut pram, 1, 0x001F);
    poner_sprite(&mut oam, 0, 0x0000, 0x0000, 0x0000);

    ppu.render_scanline(0, &vram, &pram, &oam);

    assert_eq!(pixel(&ppu, 0, 0), [0xFF, 0x00, 0x00, 0xFF], "sprite rojo en x=0");
    assert_eq!(pixel(&ppu, 7, 0), [0xFF, 0x00, 0x00, 0xFF], "el sprite cubre 8 px");
    assert_eq!(pixel(&ppu, 8, 0), [0x00, 0x00, 0xFF, 0xFF], "fuera del sprite → backdrop");
}

#[test]
fn el_sprite_respeta_su_posicion_x_e_y() {
    let mut ppu = Ppu::new();
    dispcnt(&mut ppu, 0, true, true);

    let mut vram = vec![0u8; VRAM_SIZE];
    let mut pram = vec![0u8; PRAM_SIZE];
    let mut oam = oam_vacia();
    poner_fila0_tile_4bpp(&mut vram, OBJ_TILE_VRAM_BASE, 0, 1);
    poner_color_obj_pram(&mut pram, 1, 0x001F);
    poner_sprite(&mut oam, 0, 50, 100, 0x0000);

    ppu.render_scanline(50, &vram, &pram, &oam);
    assert_eq!(pixel(&ppu, 100, 50), [0xFF, 0x00, 0x00, 0xFF], "esquina del sprite");
    assert_eq!(pixel(&ppu, 99, 50), [0x00, 0x00, 0x00, 0xFF], "justo a la izquierda, nada");
    ppu.render_scanline(49, &vram, &pram, &oam);
    assert_eq!(pixel(&ppu, 100, 49), [0x00, 0x00, 0x00, 0xFF], "la línea de arriba, nada");
}

#[test]
fn la_prioridad_decide_entre_sprite_y_fondo() {
    let prep = || {
        let mut ppu = Ppu::new();
        ppu.write_u8(0x000, DISPCNT_OBJ_1D as u8);
        ppu.write_u8(0x001, ((DISPCNT_BG0_ENABLE | DISPCNT_OBJ_ENABLE) >> 8) as u8);
        ppu.write_u8(0x009, 0x08);

        let mut vram = vec![0u8; VRAM_SIZE];
        let mut pram = vec![0u8; PRAM_SIZE];
        let mut oam = oam_vacia();
        poner_fila0_tile_4bpp(&mut vram, 0, 1, 1);
        vram[0x4000..0x4002].copy_from_slice(&0x0001u16.to_le_bytes());
        poner_color_pram(&mut pram, 1, 0x03E0);
        poner_fila0_tile_4bpp(&mut vram, OBJ_TILE_VRAM_BASE, 0, 1);
        poner_color_obj_pram(&mut pram, 1, 0x001F);
        poner_sprite(&mut oam, 0, 0x0000, 0x0000, 0x0000);
        (ppu, vram, pram, oam)
    };

    let (mut ppu, vram, pram, mut oam) = prep();
    ppu.write_u8(0x008, 0x01);
    poner_sprite(&mut oam, 0, 0x0000, 0x0000, 0x0000);
    ppu.render_scanline(0, &vram, &pram, &oam);
    assert_eq!(pixel(&ppu, 0, 0), [0xFF, 0x00, 0x00, 0xFF], "sprite (prio 0) delante del BG (prio 1)");

    let (mut ppu, vram, pram, mut oam) = prep();
    ppu.write_u8(0x008, 0x00);
    poner_sprite(&mut oam, 0, 0x0000, 0x0000, 2 << OBJ_ATTR2_PRIORITY_SHIFT);
    ppu.render_scanline(0, &vram, &pram, &oam);
    assert_eq!(pixel(&ppu, 0, 0), [0x00, 0xFF, 0x00, 0xFF], "BG (prio 0) delante del sprite (prio 2)");
}

#[test]
fn el_volteo_horizontal_de_un_sprite_se_aplica() {
    let mut ppu = Ppu::new();
    dispcnt(&mut ppu, 0, true, true);

    let mut vram = vec![0u8; VRAM_SIZE];
    let mut pram = vec![0u8; PRAM_SIZE];
    let mut oam = oam_vacia();
    vram[OBJ_TILE_VRAM_BASE] = 0x01;
    poner_color_obj_pram(&mut pram, 1, 0x001F);
    poner_sprite(&mut oam, 0, 0x0000, OBJ_ATTR1_HFLIP, 0x0000);

    ppu.render_scanline(0, &vram, &pram, &oam);

    assert_eq!(pixel(&ppu, 0, 0), [0x00, 0x00, 0x00, 0xFF], "x=0 ya no es el píxel del sprite");
    assert_eq!(pixel(&ppu, 7, 0), [0xFF, 0x00, 0x00, 0xFF], "el píxel se volteó a x=7");
}

#[test]
fn un_sprite_8bpp_usa_la_paleta_directa() {
    let mut ppu = Ppu::new();
    dispcnt(&mut ppu, 0, true, true);

    let mut vram = vec![0u8; VRAM_SIZE];
    let mut pram = vec![0u8; PRAM_SIZE];
    let mut oam = oam_vacia();
    vram[OBJ_TILE_VRAM_BASE] = 5;
    poner_color_obj_pram(&mut pram, 5, 0x001F);
    poner_sprite(&mut oam, 0, OBJ_ATTR0_8BPP, 0x0000, 0x0000);

    ppu.render_scanline(0, &vram, &pram, &oam);
    assert_eq!(pixel(&ppu, 0, 0), [0xFF, 0x00, 0x00, 0xFF], "8 bpp resuelve por índice directo");
}

#[test]
fn un_sprite_deshabilitado_o_con_obj_off_no_se_dibuja() {
    let mut vram = vec![0u8; VRAM_SIZE];
    let mut pram = vec![0u8; PRAM_SIZE];
    let mut oam = oam_vacia();
    poner_fila0_tile_4bpp(&mut vram, OBJ_TILE_VRAM_BASE, 0, 1);
    poner_color_pram(&mut pram, 0, 0x7C00);
    poner_color_obj_pram(&mut pram, 1, 0x001F);

    let mut ppu = Ppu::new();
    dispcnt(&mut ppu, 0, false, true);
    poner_sprite(&mut oam, 0, 0x0000, 0x0000, 0x0000);
    ppu.render_scanline(0, &vram, &pram, &oam);
    assert_eq!(pixel(&ppu, 0, 0), [0x00, 0x00, 0xFF, 0xFF], "OBJ off → solo backdrop");

    let mut ppu = Ppu::new();
    dispcnt(&mut ppu, 0, true, true);
    poner_sprite(&mut oam, 0, OBJ_ATTR0_DISABLE, 0x0000, 0x0000);
    ppu.render_scanline(0, &vram, &pram, &oam);
    assert_eq!(pixel(&ppu, 0, 0), [0x00, 0x00, 0xFF, 0xFF], "sprite disable → solo backdrop");
}

#[test]
fn un_sprite_afin_con_matriz_identidad_se_dibuja_como_uno_regular() {
    let mut ppu = Ppu::new();
    dispcnt(&mut ppu, 0, true, true);
    let mut vram = vec![0u8; VRAM_SIZE];
    let mut pram = vec![0u8; PRAM_SIZE];
    let mut oam = oam_vacia();
    poner_fila0_tile_4bpp(&mut vram, OBJ_TILE_VRAM_BASE, 0, 1);
    poner_color_pram(&mut pram, 0, 0x7C00);
    poner_color_obj_pram(&mut pram, 1, 0x001F);
    poner_obj_affine(&mut oam, 0, 0x0100, 0x0000, 0x0000, 0x0100);
    poner_sprite(&mut oam, 0, OBJ_ATTR0_AFFINE, 0x0000, 0x0000);

    ppu.render_scanline(0, &vram, &pram, &oam);

    assert_eq!(pixel(&ppu, 0, 0), [0xFF, 0x00, 0x00, 0xFF], "afín identidad = sprite rojo");
    assert_eq!(pixel(&ppu, 7, 0), [0xFF, 0x00, 0x00, 0xFF], "cubre los 8 px");
    assert_eq!(pixel(&ppu, 8, 0), [0x00, 0x00, 0xFF, 0xFF], "fuera → backdrop");
}

#[test]
fn obj_size_cubre_las_formas_y_tamanos() {
    assert_eq!(obj_size(0, 0), (8, 8));
    assert_eq!(obj_size(0, 3), (64, 64));
    assert_eq!(obj_size(1, 0), (16, 8));
    assert_eq!(obj_size(1, 3), (64, 32));
    assert_eq!(obj_size(2, 0), (8, 16));
    assert_eq!(obj_size(2, 3), (32, 64));
}

#[test]
fn el_menor_indice_de_oam_queda_delante() {
    let mut ppu = Ppu::new();
    dispcnt(&mut ppu, 0, true, true);
    let mut vram = vec![0u8; VRAM_SIZE];
    let mut pram = vec![0u8; PRAM_SIZE];
    let mut oam = oam_vacia();
    poner_fila0_tile_4bpp(&mut vram, OBJ_TILE_VRAM_BASE, 0, 1);
    poner_fila0_tile_4bpp(&mut vram, OBJ_TILE_VRAM_BASE, 1, 1);
    poner_color_obj_pram(&mut pram, 1, 0x001F);
    poner_color_obj_pram(&mut pram, 16 + 1, 0x03E0);
    poner_sprite(&mut oam, 1, 0x0000, 0x0000, 0x0001 | (1 << OBJ_ATTR2_PALBANK_SHIFT));
    poner_sprite(&mut oam, 0, 0x0000, 0x0000, 0x0000);
    ppu.render_scanline(0, &vram, &pram, &oam);
    assert_eq!(pixel(&ppu, 0, 0), [0xFF, 0x00, 0x00, 0xFF], "el sprite 0 (rojo) tapa al 1");
}

#[test]
fn modo4_resuelve_el_color_por_la_paleta_y_respeta_el_indice_0() {
    let mut ppu = Ppu::new();
    ppu.write_u8(0x000, 0x04);
    let mut vram = vec![0u8; VRAM_SIZE];
    let mut pram = vec![0u8; PRAM_SIZE];
    vram[SCREEN_WIDTH] = 3;
    vram[SCREEN_WIDTH + 1] = 0;
    poner_color_pram(&mut pram, 0, 0x7C00);
    poner_color_pram(&mut pram, 3, 0x001F);

    ppu.render_scanline(1, &vram, &pram, &[]);

    assert_eq!(pixel(&ppu, 0, 1), [0xFF, 0x00, 0x00, 0xFF], "índice 3 → rojo");
    assert_eq!(pixel(&ppu, 1, 1), [0x00, 0x00, 0xFF, 0xFF], "índice 0 → backdrop");
}

#[test]
fn modo4_el_frame_select_elige_el_segundo_buffer() {
    let mut ppu = Ppu::new();
    ppu.write_u8(0x000, 0x04 | DISPCNT_FRAME_SELECT as u8);
    let mut vram = vec![0u8; VRAM_SIZE];
    let mut pram = vec![0u8; PRAM_SIZE];
    vram[0] = 2;
    vram[FRAME_BYTES] = 1;
    poner_color_pram(&mut pram, 1, 0x001F);
    poner_color_pram(&mut pram, 2, 0x03E0);

    ppu.render_scanline(0, &vram, &pram, &[]);

    assert_eq!(pixel(&ppu, 0, 0), [0xFF, 0x00, 0x00, 0xFF], "frame 1 → lee el índice del 0xA000");
}

#[test]
fn modo5_pinta_16bpp_dentro_del_recuadro_y_backdrop_fuera() {
    let mut ppu = Ppu::new();
    ppu.write_u8(0x000, 0x05);
    let mut vram = vec![0u8; VRAM_SIZE];
    let mut pram = vec![0u8; PRAM_SIZE];
    poner_color_pram(&mut pram, 0, 0x03E0);
    vram[0..2].copy_from_slice(&0x001Fu16.to_le_bytes());

    ppu.render_scanline(0, &vram, &pram, &[]);

    assert_eq!(pixel(&ppu, 0, 0), [0xFF, 0x00, 0x00, 0xFF], "dentro del recuadro");
    assert_eq!(pixel(&ppu, MODE5_WIDTH, 0), [0x00, 0xFF, 0x00, 0xFF], "fuera del ancho → backdrop");
    ppu.render_scanline(MODE5_HEIGHT as u16, &vram, &pram, &[]);
    assert_eq!(pixel(&ppu, 0, MODE5_HEIGHT), [0x00, 0xFF, 0x00, 0xFF], "fuera del alto → backdrop");
}

#[test]
fn modo5_el_frame_select_elige_el_segundo_buffer() {
    let mut ppu = Ppu::new();
    ppu.write_u8(0x000, 0x05 | DISPCNT_FRAME_SELECT as u8);
    let mut vram = vec![0u8; VRAM_SIZE];
    let pram = vec![0u8; PRAM_SIZE];
    vram[0..2].copy_from_slice(&0x7C00u16.to_le_bytes());
    vram[FRAME_BYTES..FRAME_BYTES + 2].copy_from_slice(&0x001Fu16.to_le_bytes());

    ppu.render_scanline(0, &vram, &pram, &[]);

    assert_eq!(pixel(&ppu, 0, 0), [0xFF, 0x00, 0x00, 0xFF], "frame 1 → rojo del 0xA000");
}

#[test]
fn modo4_un_sprite_se_compone_sobre_el_bitmap() {
    let mut ppu = Ppu::new();
    dispcnt(&mut ppu, 4, true, true);
    let mut vram = vec![0u8; VRAM_SIZE];
    let mut pram = vec![0u8; PRAM_SIZE];
    let mut oam = oam_vacia();
    vram[8] = 2;
    poner_color_pram(&mut pram, 2, 0x03E0);
    poner_fila0_tile_4bpp(&mut vram, OBJ_TILE_VRAM_BASE, 0, 1);
    poner_color_obj_pram(&mut pram, 1, 0x001F);
    poner_sprite(&mut oam, 0, 0x0000, 0x0000, 0x0000);

    ppu.render_scanline(0, &vram, &pram, &oam);

    assert_eq!(pixel(&ppu, 0, 0), [0xFF, 0x00, 0x00, 0xFF], "sprite (prio 0) sobre el bitmap");
    assert_eq!(pixel(&ppu, 8, 0), [0x00, 0xFF, 0x00, 0xFF], "fuera del sprite → bitmap verde");
}

#[allow(clippy::too_many_arguments)]
fn poner_bg_afin(ppu: &mut Ppu, bg: u32, pa: i16, pb: i16, pc: i16, pd: i16, x: i32, y: i32) {
    let base = AFFINE_REGS_START + (bg - 2) * AFFINE_REGS_PER_BG;
    let mut w16 = |off: u32, v: u16| {
        ppu.write_u8(off, v as u8);
        ppu.write_u8(off + 1, (v >> 8) as u8);
    };
    w16(base, pa as u16);
    w16(base + 2, pb as u16);
    w16(base + 4, pc as u16);
    w16(base + 6, pd as u16);
    for b in 0..4 {
        ppu.write_u8(base + 8 + b, (x >> (b * 8)) as u8);
        ppu.write_u8(base + 12 + b, (y >> (b * 8)) as u8);
    }
}

#[test]
fn modo2_dibuja_un_fondo_afin_con_identidad() {
    let mut ppu = Ppu::new();
    ppu.write_u8(0x000, 0x02);
    ppu.write_u8(0x001, 0x04);
    ppu.write_u8(0x00D, 0x01);

    let mut vram = vec![0u8; VRAM_SIZE];
    let mut pram = vec![0u8; PRAM_SIZE];
    vram[0x800] = 1;
    vram[64] = 5;
    poner_color_pram(&mut pram, 0, 0x7C00);
    poner_color_pram(&mut pram, 5, 0x001F);
    poner_bg_afin(&mut ppu, 2, 0x0100, 0, 0, 0x0100, 0, 0);

    ppu.render_scanline(0, &vram, &pram, &[]);
    assert_eq!(pixel(&ppu, 0, 0), [0xFF, 0x00, 0x00, 0xFF], "afín identidad → tile rojo");
    assert_eq!(pixel(&ppu, 200, 0), [0x00, 0x00, 0xFF, 0xFF], "fuera del área → backdrop");
}

#[test]
fn el_fondo_afin_envuelve_con_el_bit_de_wrap() {
    let mut vram = vec![0u8; VRAM_SIZE];
    let mut pram = vec![0u8; PRAM_SIZE];
    for c in 0..16 {
        vram[0x800 + c] = 1;
    }
    for b in 0..64 {
        vram[64 + b] = 5;
    }
    poner_color_pram(&mut pram, 0, 0x7C00);
    poner_color_pram(&mut pram, 5, 0x001F);

    let prep = |wrap: bool| {
        let mut ppu = Ppu::new();
        ppu.write_u8(0x000, 0x02);
        ppu.write_u8(0x001, 0x04);
        let mut cnt = 0x01u16 << 8;
        if wrap {
            cnt |= BGCNT_AFFINE_WRAP;
        }
        ppu.write_u8(0x00C, cnt as u8);
        ppu.write_u8(0x00D, (cnt >> 8) as u8);
        poner_bg_afin(&mut ppu, 2, 0x0100, 0, 0, 0x0100, -256, 0);
        ppu
    };

    let mut sin = prep(false);
    sin.render_scanline(0, &vram, &pram, &[]);
    assert_eq!(pixel(&sin, 0, 0), [0x00, 0x00, 0xFF, 0xFF], "sin wrap, ix=-1 → backdrop");

    let mut con = prep(true);
    con.render_scanline(0, &vram, &pram, &[]);
    assert_eq!(pixel(&con, 0, 0), [0xFF, 0x00, 0x00, 0xFF], "con wrap, ix=-1 envuelve → tile");
}

#[test]
fn un_sprite_afin_escala_al_doble() {
    let mut ppu = Ppu::new();
    dispcnt(&mut ppu, 0, true, true);
    let mut vram = vec![0u8; VRAM_SIZE];
    let mut pram = vec![0u8; PRAM_SIZE];
    let mut oam = oam_vacia();
    poner_fila0_tile_4bpp(&mut vram, OBJ_TILE_VRAM_BASE, 0, 1);
    poner_color_pram(&mut pram, 0, 0x7C00);
    poner_color_obj_pram(&mut pram, 1, 0x001F);
    poner_obj_affine(&mut oam, 0, 0x0080, 0x0000, 0x0000, 0x0080);
    poner_sprite(&mut oam, 0, OBJ_ATTR0_AFFINE | OBJ_ATTR0_DOUBLE, 0x0000, 0x0000);

    ppu.render_scanline(0, &vram, &pram, &oam);
    assert_eq!(pixel(&ppu, 0, 0), [0xFF, 0x00, 0x00, 0xFF], "zoom 2×: x=0 rojo");
    assert_eq!(pixel(&ppu, 15, 0), [0xFF, 0x00, 0x00, 0xFF], "zoom 2×: x=15 aún dentro");
    assert_eq!(pixel(&ppu, 16, 0), [0x00, 0x00, 0xFF, 0xFF], "x=16 ya fuera → backdrop");
}
