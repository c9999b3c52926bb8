use lib::cpu::gte::{Gte, FLAG_ERROR};

const FN_RTPS: u32 = 0x01;
const FN_NCLIP: u32 = 0x06;
const FN_OP: u32 = 0x0c;
const FN_DPCS: u32 = 0x10;
const FN_INTPL: u32 = 0x11;
const FN_MVMVA: u32 = 0x12;
const FN_CDP: u32 = 0x14;
const FN_NCCS: u32 = 0x1b;
const FN_CC: u32 = 0x1c;
const FN_NCS: u32 = 0x1e;
const FN_NCT: u32 = 0x20;
const FN_SQR: u32 = 0x28;
const FN_DCPL: u32 = 0x29;
const FN_DPCT: u32 = 0x2a;
const FN_AVSZ3: u32 = 0x2d;
const FN_AVSZ4: u32 = 0x2e;
const FN_RTPT: u32 = 0x30;
const FN_GPF: u32 = 0x3d;
const FN_GPL: u32 = 0x3e;

#[test]
fn register_io_applies_gte_special_cases() {
    let mut gte = Gte::new();

    gte.write_data(8, 0x0000_ffff);
    gte.write_data(1, 0x0000_ff00);
    gte.write_data(7, 0xffff_ffff);
    gte.write_data(16, 0xdead_beef);
    gte.write_data(15, 0x0001_0002);
    gte.write_data(15, 0x0003_0004);
    gte.write_data(15, 0x0005_0006);

    assert_eq!(gte.read_data(8), 0xffff_ffff);
    assert_eq!(gte.read_data(1), 0xffff_ff00);
    assert_eq!(gte.read_data(7), 0x0000_ffff);
    assert_eq!(gte.read_data(16), 0x0000_beef);
    assert_eq!(gte.read_data(12), 0x0001_0002);
    assert_eq!(gte.read_data(13), 0x0003_0004);
    assert_eq!(gte.read_data(14), 0x0005_0006);
    assert_eq!(gte.read_data(15), 0x0005_0006);
}

#[test]
fn irgb_orgb_lzcr_and_flag_registers_match_hardware_shape() {
    let mut gte = Gte::new();

    gte.write_data(28, 0x7fff);
    assert_eq!(gte.read_data(9), 0x0000_0f80);
    assert_eq!(gte.read_data(10), 0x0000_0f80);
    assert_eq!(gte.read_data(11), 0x0000_0f80);
    assert_eq!(gte.read_data(29), 0x7fff);

    gte.write_data(9, 0xffff_8000);
    gte.write_data(10, 0x0000_2000);
    gte.write_data(11, 0x0000_0380);
    assert_eq!(gte.read_data(29), 0x1f << 5 | 0x07 << 10);

    gte.write_data(30, 0);
    assert_eq!(gte.read_data(31), 32);
    gte.write_data(30, 0xfffe_0000);
    assert_eq!(gte.read_data(31), 15);

    gte.write_control(31, 1 << 12);
    assert_eq!(gte.read_control(31), 1 << 12);
    gte.write_control(31, 1 << 13);
    assert_eq!(gte.read_control(31), FLAG_ERROR | (1 << 13));
    gte.write_control(31, 1 << 22);
    assert_eq!(gte.read_control(31), 1 << 22);
    gte.write_control(31, 1 << 23);
    assert_eq!(gte.read_control(31), FLAG_ERROR | (1 << 23));
}

#[test]
fn control_single_halfword_registers_sign_extend() {
    let mut gte = Gte::new();
    for index in [4, 12, 20, 26, 27, 29, 30] {
        gte.write_control(index, 0x8000);
        assert_eq!(gte.read_control(index), 0xffff_8000);
    }
}

#[test]
fn nclip_computes_screen_space_area_and_mac0_overflow_flags() {
    let mut gte = Gte::new();

    gte.write_data(12, 0x0000_0000);
    gte.write_data(13, 0x0000_0064);
    gte.write_data(14, 0x0064_0000);
    gte.execute_command(gte_op(0, 0, 0, 0, 0, FN_NCLIP));
    assert_eq!(gte.read_data(24), 10_000);
    assert_eq!(gte.read_control(31), 0);

    gte.write_data(12, (0x7fff << 16) | 0x7fff);
    gte.write_data(13, (0x8000 << 16) | 0x8000);
    gte.write_data(14, (0x7fff << 16) | 0x8000);
    gte.execute_command(gte_op(0, 0, 0, 0, 0, FN_NCLIP));
    assert_eq!(gte.read_data(24), 131_071);
    assert_ne!(gte.read_control(31) & (1 << 15), 0);
}

#[test]
fn avsz3_and_avsz4_average_depth_and_saturate_otz() {
    let mut gte = Gte::new();
    gte.write_data(17, 100);
    gte.write_data(18, 200);
    gte.write_data(19, 300);
    gte.write_control(29, 0x0555);

    gte.execute_command(gte_op(1, 0, 0, 0, 0, FN_AVSZ3));

    assert_eq!(gte.read_data(24), 819_000);
    assert_eq!(gte.read_data(7), 199);

    gte.write_data(16, 100);
    gte.write_data(17, 200);
    gte.write_data(18, 300);
    gte.write_data(19, 400);
    gte.write_control(30, 0x0400);

    gte.execute_command(gte_op(1, 0, 0, 0, 0, FN_AVSZ4));

    assert_eq!(gte.read_data(24), 1_024_000);
    assert_eq!(gte.read_data(7), 250);

    gte.write_data(17, 0xffff);
    gte.write_data(18, 0xffff);
    gte.write_data(19, 0xffff);
    gte.write_control(29, 0x1000);

    gte.execute_command(gte_op(1, 0, 0, 0, 0, FN_AVSZ3));

    assert_eq!(gte.read_data(7), 0xffff);
    assert_ne!(gte.read_control(31) & (1 << 18), 0);
}

#[test]
fn mvmva_handles_basic_matrix_vector_and_limit_modes() {
    let mut gte = Gte::new();
    set_z_rotation_90(&mut gte);
    set_translation(&mut gte, 10, 20, 30);
    gte.write_data(0, (200 << 16) | 100);
    gte.write_data(1, 300);

    gte.execute_command(gte_op(1, 0, 0, 0, 0, FN_MVMVA));

    assert_eq!(gte.read_data(25), (-190i32) as u32);
    assert_eq!(gte.read_data(26), 120);
    assert_eq!(gte.read_data(27), 330);

    set_identity_rotation(&mut gte);
    set_translation(&mut gte, -500, -600, -700);
    gte.write_data(0, (100 << 16) | 100);
    gte.write_data(1, 100);

    gte.execute_command(gte_op(1, 0, 0, 0, 1, FN_MVMVA));

    assert_eq!(gte.read_data(25), (-400i32) as u32);
    assert_eq!(gte.read_data(9), 0);

    set_identity_rotation(&mut gte);
    set_translation(&mut gte, 0, 0, 0);
    gte.write_data(0, (10 << 16) | 10);
    gte.write_data(1, 10);

    gte.execute_command(gte_op(0, 0, 0, 3, 0, FN_MVMVA));

    assert_eq!(gte.read_data(25), 40_960);
    assert_eq!(gte.read_data(26), 40_960);
    assert_eq!(gte.read_data(27), 40_960);
}

#[test]
fn mvmva_supports_light_color_matrix_with_background() {
    let mut gte = Gte::new();
    gte.write_control(16, 0x0000_1000);
    gte.write_control(17, 0x0000_0000);
    gte.write_control(18, 0x0000_1000);
    gte.write_control(19, 0x0000_0000);
    gte.write_control(20, 0x1000);
    gte.write_control(13, 100);
    gte.write_control(14, 200);
    gte.write_control(15, 300);
    gte.write_data(9, 0x1000);
    gte.write_data(10, 0x1000);
    gte.write_data(11, 0x1000);

    gte.execute_command(gte_op(1, 2, 3, 1, 0, FN_MVMVA));

    assert_eq!(gte.read_data(25), 4196);
    assert_eq!(gte.read_data(26), 4296);
    assert_eq!(gte.read_data(27), 4396);
}

#[test]
fn mvmva_handles_reserved_matrix_and_bugged_far_color_vector() {
    let mut gte = Gte::new();
    gte.write_data(6, 5);
    gte.write_data(8, 7);
    gte.write_control(1, 11);
    gte.write_control(2, 13);
    gte.write_data(0, (3 << 16) | 2);
    gte.write_data(1, 4);

    gte.execute_command(gte_op(0, 3, 0, 3, 0, FN_MVMVA));

    assert_eq!(gte.read_data(25), 108);
    assert_eq!(gte.read_data(26), 99);
    assert_eq!(gte.read_data(27), 117);

    gte.write_control(0, (2 << 16) | 1);
    gte.write_control(1, (4 << 16) | 3);
    gte.write_control(2, (6 << 16) | 5);
    gte.write_control(3, (8 << 16) | 7);
    gte.write_control(4, 9);
    gte.write_data(0, (20 << 16) | 10);
    gte.write_data(1, 30);

    gte.execute_command(gte_op(0, 0, 0, 2, 0, FN_MVMVA));

    assert_eq!(gte.read_data(25), 130);
    assert_eq!(gte.read_data(26), 280);
    assert_eq!(gte.read_data(27), 430);
}

#[test]
fn sqr_and_op_execute_vector_arithmetic() {
    let mut gte = Gte::new();
    gte.write_data(9, 0x1000);
    gte.write_data(10, (-0x1000i32) as u32);
    gte.write_data(11, 0x2000);

    gte.execute_command(gte_op(1, 0, 0, 0, 0, FN_SQR));

    assert_eq!(gte.read_data(25), 0x1000);
    assert_eq!(gte.read_data(26), 0x1000);
    assert_eq!(gte.read_data(27), 0x4000);
    assert_eq!(gte.read_data(9), 0x1000);
    assert_eq!(gte.read_data(10), 0x1000);
    assert_eq!(gte.read_data(11), 0x4000);

    gte.write_control(0, 2);
    gte.write_control(2, 3);
    gte.write_control(4, 4);
    gte.write_data(9, 10);
    gte.write_data(10, 20);
    gte.write_data(11, 30);

    gte.execute_command(gte_op(0, 0, 0, 0, 0, FN_OP));

    assert_eq!(gte.read_data(25), 10);
    assert_eq!(gte.read_data(26), (-20i32) as u32);
    assert_eq!(gte.read_data(27), 10);
}

#[test]
fn gpf_and_gpl_update_ir_and_color_fifo() {
    let mut gte = Gte::new();
    gte.write_data(6, 0x2a00_0000);
    gte.write_data(8, 0x0800);
    gte.write_data(9, 0x1000);
    gte.write_data(10, 0x0800);
    gte.write_data(11, (-0x1000i32) as u32);

    gte.execute_command(gte_op(1, 0, 0, 0, 0, FN_GPF));

    assert_eq!(gte.read_data(25), 0x0800);
    assert_eq!(gte.read_data(26), 0x0400);
    assert_eq!(gte.read_data(27), (-0x0800i32) as u32);
    assert_eq!(gte.read_data(22), 0x2a00_4080);
    assert_ne!(gte.read_control(31) & (1 << 19), 0);

    gte.write_data(8, 2);
    gte.write_data(9, 100);
    gte.write_data(10, 200);
    gte.write_data(11, 300);
    gte.write_data(25, 1000);
    gte.write_data(26, 2000);
    gte.write_data(27, 3000);

    gte.execute_command(gte_op(0, 0, 0, 0, 0, FN_GPL));

    assert_eq!(gte.read_data(25), 1200);
    assert_eq!(gte.read_data(26), 2400);
    assert_eq!(gte.read_data(27), 3600);
    assert_eq!(gte.read_data(22), 0x2ae1_964b);
}

#[test]
fn dpcs_and_intpl_interpolate_to_far_color_and_push_rgb_fifo() {
    let mut gte = Gte::new();
    gte.write_data(6, 0x33c0_8040);
    gte.write_data(8, 0x0800);
    gte.write_control(21, 128);
    gte.write_control(22, 64);
    gte.write_control(23, 32);

    gte.execute_command(gte_op(1, 0, 0, 0, 0, FN_DPCS));

    assert_eq!(gte.read_data(9), 576);
    assert_eq!(gte.read_data(10), 1056);
    assert_eq!(gte.read_data(11), 1552);
    assert_eq!(gte.read_data(22), 0x3361_4224);

    gte.write_data(6, 0x4400_0000);
    gte.write_data(8, 0x1000);
    gte.write_data(9, 100);
    gte.write_data(10, 200);
    gte.write_data(11, 300);
    gte.write_control(21, 200);
    gte.write_control(22, 100);
    gte.write_control(23, 50);

    gte.execute_command(gte_op(1, 0, 0, 0, 0, FN_INTPL));

    assert_eq!(gte.read_data(9), 200);
    assert_eq!(gte.read_data(10), 100);
    assert_eq!(gte.read_data(11), 50);
    assert_eq!(gte.read_data(22), 0x4403_060c);
}

#[test]
fn dcpl_dpct_cc_and_cdp_update_color_fifo() {
    let mut gte = Gte::new();
    gte.write_data(6, 0x7760_4020);
    gte.write_data(8, 0);
    gte.write_data(9, 0x1000);
    gte.write_data(10, 0x1000);
    gte.write_data(11, 0x1000);

    gte.execute_command(gte_op(1, 0, 0, 0, 1, FN_DCPL));

    assert_eq!(gte.read_data(22), 0x7760_4020);

    gte.write_data(6, 0x7700_0000);
    gte.write_data(8, 0);
    gte.write_data(20, 0x1103_0201);
    gte.write_data(21, 0x2206_0504);
    gte.write_data(22, 0x3309_0807);

    gte.execute_command(gte_op(1, 0, 0, 0, 1, FN_DPCT));

    assert_eq!(gte.read_data(20), 0x7703_0201);
    assert_eq!(gte.read_data(21), 0x7706_0504);
    assert_eq!(gte.read_data(22), 0x7709_0807);

    set_color_identity(&mut gte);
    gte.write_data(6, 0x8840_3020);
    gte.write_data(8, 0);
    gte.write_data(9, 0x1000);
    gte.write_data(10, 0x0800);
    gte.write_data(11, 0x0400);

    gte.execute_command(gte_op(1, 0, 0, 0, 1, FN_CC));

    assert_eq!(gte.read_data(22), 0x8810_1820);

    gte.write_data(8, 0x1000);
    gte.write_control(21, 1);
    gte.write_control(22, 2);
    gte.write_control(23, 3);

    gte.execute_command(gte_op(1, 0, 0, 0, 1, FN_CDP));

    assert_eq!(gte.read_data(22), 0x8800_0000);
}

#[test]
fn ncs_and_nccs_use_light_and_color_matrices() {
    let mut gte = Gte::new();
    set_light_identity(&mut gte);
    set_color_identity(&mut gte);
    gte.write_data(6, 0x5500_0000);
    gte.write_data(0, (0x0400 << 16) | 0x0800);
    gte.write_data(1, 0x0200);

    gte.execute_command(gte_op(1, 0, 0, 0, 1, FN_NCS));

    assert_eq!(gte.read_data(9), 0x0800);
    assert_eq!(gte.read_data(10), 0x0400);
    assert_eq!(gte.read_data(11), 0x0200);
    assert_eq!(gte.read_data(22), 0x5520_4080);

    gte.write_data(6, 0x55ff_8040);
    gte.write_data(0, (0x1000 << 16) | 0x1000);
    gte.write_data(1, 0x1000);

    gte.execute_command(gte_op(1, 0, 0, 0, 1, FN_NCCS));

    assert_eq!(gte.read_data(9), 0x0400);
    assert_eq!(gte.read_data(10), 0x0800);
    assert_eq!(gte.read_data(11), 0x0ff0);
    assert_eq!(gte.read_data(22), 0x55ff_8040);

    gte.write_data(0, (0x0100 << 16) | 0x0200);
    gte.write_data(1, 0x0080);
    gte.write_data(2, (0x0080 << 16) | 0x0100);
    gte.write_data(3, 0x0040);
    gte.write_data(4, (0x0040 << 16) | 0x0080);
    gte.write_data(5, 0x0020);

    gte.execute_command(gte_op(1, 0, 0, 0, 1, FN_NCT));

    assert_eq!(gte.read_data(20), 0x5508_1020);
    assert_eq!(gte.read_data(21), 0x5504_0810);
    assert_eq!(gte.read_data(22), 0x5502_0408);
}

#[test]
fn rtps_projects_single_vertex_and_sets_depth_cue() {
    let mut gte = Gte::new();
    set_identity_rotation(&mut gte);
    set_translation(&mut gte, 0, 0, 0);
    set_screen(&mut gte, 160 << 16, 120 << 16, 200);
    gte.write_data(0, (50 << 16) | 100);
    gte.write_data(1, 500);

    gte.execute_command(gte_op(1, 0, 0, 0, 0, FN_RTPS));

    assert_eq!(gte.read_data(19), 500);
    assert_eq!(gte.read_data(14), (139 << 16) | 199);
    assert_eq!(gte.read_data(25), 100);
    assert_eq!(gte.read_data(26), 50);
    assert_eq!(gte.read_data(27), 500);

    set_screen(&mut gte, 0, 0, 200);
    gte.write_control(27, 0xffff_f880);
    gte.write_control(28, 0x0100_0000);
    gte.write_data(0, 0);
    gte.write_data(1, 1000);

    gte.execute_command(gte_op(1, 0, 0, 0, 0, FN_RTPS));

    assert_eq!(gte.read_data(24), (-8_388_224i32) as u32);
    assert_eq!(gte.read_data(8), 0);
}

#[test]
fn rtps_saturates_screen_and_reports_division_overflow() {
    let mut gte = Gte::new();
    set_identity_rotation(&mut gte);
    set_translation(&mut gte, 0, 0, 0);
    set_screen(&mut gte, 0, 0, 200);
    gte.write_data(0, 0x0000_7fff);
    gte.write_data(1, 100);

    gte.execute_command(gte_op(1, 0, 0, 0, 0, FN_RTPS));

    assert_eq!(gte.read_data(14) as u16, 0x03ff);
    assert_ne!(gte.read_control(31) & (1 << 17), 0);
    assert_ne!(gte.read_control(31) & (1 << 14), 0);
}

#[test]
fn rtpt_projects_three_vertices_and_pushes_sz_fifo() {
    let mut gte = Gte::new();
    set_identity_rotation(&mut gte);
    set_translation(&mut gte, 0, 0, 0);
    set_screen(&mut gte, 160 << 16, 120 << 16, 200);
    gte.write_data(0, 0);
    gte.write_data(1, 100);
    gte.write_data(2, 0);
    gte.write_data(3, 200);
    gte.write_data(4, 0);
    gte.write_data(5, 300);

    gte.execute_command(gte_op(1, 0, 0, 0, 0, FN_RTPT));

    assert_eq!(gte.read_data(17), 100);
    assert_eq!(gte.read_data(18), 200);
    assert_eq!(gte.read_data(19), 300);
    assert_eq!(gte.read_data(12), (120 << 16) | 160);
    assert_eq!(gte.read_data(13), (120 << 16) | 160);
    assert_eq!(gte.read_data(14), (120 << 16) | 160);
}

fn set_identity_rotation(gte: &mut Gte) {
    gte.write_control(0, 0x0000_1000);
    gte.write_control(1, 0x0000_0000);
    gte.write_control(2, 0x0000_1000);
    gte.write_control(3, 0x0000_0000);
    gte.write_control(4, 0x1000);
}

fn set_z_rotation_90(gte: &mut Gte) {
    gte.write_control(0, 0xf000_0000);
    gte.write_control(1, 0x1000_0000);
    gte.write_control(2, 0);
    gte.write_control(3, 0);
    gte.write_control(4, 0x1000);
}

fn set_light_identity(gte: &mut Gte) {
    gte.write_control(8, 0x0000_1000);
    gte.write_control(9, 0x0000_0000);
    gte.write_control(10, 0x0000_1000);
    gte.write_control(11, 0x0000_0000);
    gte.write_control(12, 0x1000);
}

fn set_color_identity(gte: &mut Gte) {
    gte.write_control(16, 0x0000_1000);
    gte.write_control(17, 0x0000_0000);
    gte.write_control(18, 0x0000_1000);
    gte.write_control(19, 0x0000_0000);
    gte.write_control(20, 0x1000);
}

fn set_translation(gte: &mut Gte, x: i32, y: i32, z: i32) {
    gte.write_control(5, x as u32);
    gte.write_control(6, y as u32);
    gte.write_control(7, z as u32);
}

fn set_screen(gte: &mut Gte, ofx: i32, ofy: i32, h: u16) {
    gte.write_control(24, ofx as u32);
    gte.write_control(25, ofy as u32);
    gte.write_control(26, h as u32);
    gte.write_control(27, 0);
    gte.write_control(28, 0);
}

fn gte_op(sf: u32, mx: u32, v: u32, cv: u32, lm: u32, function: u32) -> u32 {
    (sf << 19) | (mx << 17) | (v << 15) | (cv << 13) | (lm << 10) | function
}

#[test]
fn projection_distance_is_unsigned() {
    let mut gte = Gte::new();
    gte.write_control(0, 0x1000);
    gte.write_control(1, 0);
    gte.write_control(2, 0x1000);
    gte.write_control(3, 0);
    gte.write_control(4, 0x1000);
    gte.write_control(26, 0x8000);
    gte.write_data(0, 0);
    gte.write_data(1, 100);
    gte.execute_command((1 << 19) | FN_RTPS);
    assert_eq!(gte.read_data(19), 100);
    assert_ne!(gte.read_control(31) & (1 << 17), 0);
}
