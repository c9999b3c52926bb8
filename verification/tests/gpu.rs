use lib::gpu::Gpu;

#[test]
fn cpu_to_vram_and_vram_to_cpu_round_trip_pixels() {
    let mut gpu = Gpu::new();
    gpu.write_gp0(0xa000_0000);
    gpu.write_gp0(0x0004_0002);
    gpu.write_gp0(0x0001_0003);
    gpu.write_gp0(0x2222_1111);
    gpu.write_gp0(0x0000_3333);

    gpu.write_gp0(0xc000_0000);
    gpu.write_gp0(0x0004_0002);
    gpu.write_gp0(0x0001_0003);

    assert_eq!(gpu.read_gp0(), 0x2222_1111);
    assert_eq!(gpu.read_gp0(), 0x0000_3333);
}

#[test]
fn vram_to_vram_copy_respects_mask_check() {
    let mut gpu = Gpu::new();
    gpu.write_gp0(0xa000_0000);
    gpu.write_gp0(0x0000_0000);
    gpu.write_gp0(0x0001_0002);
    gpu.write_gp0(0x2222_1111);
    gpu.write_gp0(0xe600_0001);
    gpu.write_gp0(0xa000_0000);
    gpu.write_gp0(0x0000_0010);
    gpu.write_gp0(0x0001_0001);
    gpu.write_gp0(0x0000_3333);
    gpu.write_gp0(0xe600_0002);

    gpu.write_gp0(0x8000_0000);
    gpu.write_gp0(0x0000_0000);
    gpu.write_gp0(0x0000_0010);
    gpu.write_gp0(0x0001_0002);

    assert_eq!(gpu.vram()[16], 0xb333);
    assert_eq!(gpu.vram()[17], 0x2222);
}

#[test]
fn draw_area_and_offset_clip_flat_rectangle() {
    let mut gpu = Gpu::new();
    gpu.write_gp1(0x0300_0000);
    gpu.write_gp0(0xe300_0000);
    gpu.write_gp0(0xe400_2002);
    gpu.write_gp0(0xe500_0801);

    gpu.write_gp0(0x6000_00ff);
    gpu.write_gp0(0x0000_0000);
    gpu.write_gp0(0x0004_0004);

    assert_eq!(gpu.vram()[1 + GPU_WIDTH_FOR_TEST], 0x001f);
    assert_eq!(gpu.vram()[3 + GPU_WIDTH_FOR_TEST], 0x0000);
}

#[test]
fn flat_triangle_renders_inside_pixels() {
    let mut gpu = Gpu::new();
    gpu.write_gp0(0x2000_ff00);
    gpu.write_gp0(0x0001_0001);
    gpu.write_gp0(0x0001_0005);
    gpu.write_gp0(0x0005_0001);

    assert_eq!(gpu.vram()[2 * GPU_WIDTH_FOR_TEST + 2], 0x03e0);
}

#[test]
fn textured_rectangle_samples_4bpp_clut() {
    let mut gpu = Gpu::new();
    gpu.write_gp0(0xa000_0000);
    gpu.write_gp0(0x0001_0000);
    gpu.write_gp0(0x0001_0002);
    gpu.write_gp0(0x03e0_001f);
    gpu.write_gp0(0xa000_0000);
    gpu.write_gp0(0x0000_0002);
    gpu.write_gp0(0x0001_0001);
    gpu.write_gp0(0x0000_0010);

    gpu.write_gp0(0x6500_0000);
    gpu.write_gp0(0x0000_0000);
    gpu.write_gp0(0x0040_0008);
    gpu.write_gp0(0x0001_0002);

    assert_eq!(gpu.vram()[0], 0x001f);
    assert_eq!(gpu.vram()[1], 0x03e0);
}

const GPU_WIDTH_FOR_TEST: usize = lib::GPU_VRAM_WIDTH;
