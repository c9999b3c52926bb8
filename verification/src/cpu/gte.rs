//! The Geometry Transformation Engine (COP2): its register file and the
//! fixed-point geometry, lighting and colour commands.
use vstd::prelude::*;

verus! {

broadcast use crate::bits::group_bits;

pub const FLAG_ERROR: u32 = 0x8000_0000u32;
pub const FLAG_MAC1_POS: u32 = 0x4000_0000u32;
pub const FLAG_MAC2_POS: u32 = 0x2000_0000u32;
pub const FLAG_MAC3_POS: u32 = 0x1000_0000u32;
pub const FLAG_MAC1_NEG: u32 = 0x0800_0000u32;
pub const FLAG_MAC2_NEG: u32 = 0x0400_0000u32;
pub const FLAG_MAC3_NEG: u32 = 0x0200_0000u32;
pub const FLAG_IR1_SAT: u32 = 0x0100_0000u32;
pub const FLAG_IR2_SAT: u32 = 0x0080_0000u32;
pub const FLAG_IR3_SAT: u32 = 0x0040_0000u32;
pub const FLAG_RGB_R_SAT: u32 = 0x0020_0000u32;
pub const FLAG_RGB_G_SAT: u32 = 0x0010_0000u32;
pub const FLAG_RGB_B_SAT: u32 = 0x0008_0000u32;
pub const FLAG_OTZ_SAT: u32 = 0x0004_0000u32;
pub const FLAG_DIV_OVERFLOW: u32 = 0x0002_0000u32;
pub const FLAG_MAC0_POS: u32 = 0x0001_0000u32;
pub const FLAG_MAC0_NEG: u32 = 0x0000_8000u32;
pub const FLAG_SX2_SAT: u32 = 0x0000_4000u32;
pub const FLAG_SY2_SAT: u32 = 0x0000_2000u32;
pub const FLAG_IR0_SAT: u32 = 0x0000_1000u32;
pub const FLAG_WRITE_MASK: u32 = 0x7fff_f000u32;
pub const FLAG_SUMMARY_MASK: u32 = 0x7f87_e000u32;

pub const FN_RTPS: u32 = 0x01u32;
pub const FN_NCLIP: u32 = 0x06u32;
pub const FN_OP: u32 = 0x0cu32;
pub const FN_DPCS: u32 = 0x10u32;
pub const FN_INTPL: u32 = 0x11u32;
pub const FN_MVMVA: u32 = 0x12u32;
pub const FN_NCDS: u32 = 0x13u32;
pub const FN_CDP: u32 = 0x14u32;
pub const FN_NCDT: u32 = 0x16u32;
pub const FN_NCCS: u32 = 0x1bu32;
pub const FN_CC: u32 = 0x1cu32;
pub const FN_NCS: u32 = 0x1eu32;
pub const FN_NCT: u32 = 0x20u32;
pub const FN_SQR: u32 = 0x28u32;
pub const FN_DCPL: u32 = 0x29u32;
pub const FN_DPCT: u32 = 0x2au32;
pub const FN_AVSZ3: u32 = 0x2du32;
pub const FN_AVSZ4: u32 = 0x2eu32;
pub const FN_RTPT: u32 = 0x30u32;
pub const FN_GPF: u32 = 0x3du32;
pub const FN_GPL: u32 = 0x3eu32;
pub const FN_NCCT: u32 = 0x3fu32;

/// A three-component fixed-point vector.
#[derive(Debug, Clone, Copy, PartialEq, Eq, Structural)]
pub struct V3 {
    pub x: i64,
    pub y: i64,
    pub z: i64,
}

/// A 3x3 matrix, by rows.
#[derive(Debug, Clone, Copy, PartialEq, Eq, Structural)]
pub struct M3 {
    pub r0: V3,
    pub r1: V3,
    pub r2: V3,
}

/// The GTE register file as a mathematical value: 32 data and 32 control words.
#[verifier::ext_equal]
pub struct GteRegs {
    pub data: Seq<u32>,
    pub control: Seq<u32>,
}

#[derive(Debug, Clone)]
pub struct Gte {
    pub data: [u32; 32],
    pub control: [u32; 32],
}

impl View for Gte {
    type V = GteRegs;

    open spec fn view(&self) -> GteRegs {
        GteRegs { data: self.data@, control: self.control@ }
    }
}

// ---------------------------------------------------------------------------
// Field decoding.

pub open spec fn s16_lo(w: u32) -> i64 {
    (w as u16 as i16) as i64
}

pub open spec fn s16_hi(w: u32) -> i64 {
    ((w >> 16u32) as u16 as i16) as i64
}

pub open spec fn sign_extend16_spec(value: u32) -> u32 {
    (value as u16 as i16 as i32) as u32
}

pub open spec fn clamp_spec(v: i64, lo: i64, hi: i64) -> i64 {
    if v < lo {
        lo
    } else if v > hi {
        hi
    } else {
        v
    }
}

/// Bit 19 of a command: shift results right by 12 fractional bits.
pub open spec fn sf_spec(opcode: u32) -> bool {
    (opcode >> 19u32) & 1 != 0
}

/// Bit 10 of a command: clamp IR results to be non-negative.
pub open spec fn lm_spec(opcode: u32) -> bool {
    (opcode >> 10u32) & 1 != 0
}

pub open spec fn shift_by_sf_spec(value: i64, sf: bool) -> i64 {
    if sf {
        value >> 12i64
    } else {
        value
    }
}

pub open spec fn normalize_flag_spec(value: u32) -> u32 {
    let flag = value & FLAG_WRITE_MASK;
    if flag & FLAG_SUMMARY_MASK != 0 {
        flag | FLAG_ERROR
    } else {
        flag
    }
}

pub open spec fn color_components_spec(value: u32) -> V3 {
    V3 { x: (value & 0xff) as i64, y: ((value >> 8u32) & 0xff) as i64, z: ((value >> 16u32) & 0xff) as i64 }
}

pub open spec fn get3(v: V3, i: int) -> i64 {
    if i == 0 {
        v.x
    } else if i == 1 {
        v.y
    } else {
        v.z
    }
}

pub open spec fn mac_pos_flag(index: int) -> u32 {
    if index == 1 {
        FLAG_MAC1_POS
    } else if index == 2 {
        FLAG_MAC2_POS
    } else {
        FLAG_MAC3_POS
    }
}

pub open spec fn mac_neg_flag(index: int) -> u32 {
    if index == 1 {
        FLAG_MAC1_NEG
    } else if index == 2 {
        FLAG_MAC2_NEG
    } else {
        FLAG_MAC3_NEG
    }
}

pub open spec fn ir_sat_flag(index: int) -> u32 {
    if index == 1 {
        FLAG_IR1_SAT
    } else if index == 2 {
        FLAG_IR2_SAT
    } else {
        FLAG_IR3_SAT
    }
}

pub open spec fn rgb_sat_flag(index: int) -> u32 {
    if index == 0 {
        FLAG_RGB_R_SAT
    } else if index == 1 {
        FLAG_RGB_G_SAT
    } else {
        FLAG_RGB_B_SAT
    }
}

/// Division rounding toward zero, as the hardware divider does.
pub open spec fn trunc_div(a: i64, b: i64) -> i64 {
    if a >= 0 {
        ((a as int) / (b as int)) as i64
    } else {
        (-((-a) / (b as int))) as i64
    }
}

pub open spec fn dot(row: V3, v: V3) -> i64 {
    (row.x * v.x + row.y * v.y + row.z * v.z) as i64
}

// ---------------------------------------------------------------------------
// Register-file reads.

impl GteRegs {
    pub open spec fn ir(self, i: int) -> i64 {
        (self.data[8 + i] as i32) as i64
    }

    pub open spec fn mac(self, i: int) -> i64 {
        (self.data[24 + i] as i32) as i64
    }

    pub open spec fn ctl(self, i: int) -> i64 {
        (self.control[i] as i32) as i64
    }

    /// The projection distance H: the low half of control register 26, unsigned.
    pub open spec fn projection_h(self) -> i64 {
        (self.control[26] & 0xffff) as i64
    }

    pub open spec fn ctl_lo(self, i: int) -> i64 {
        s16_lo(self.control[i])
    }

    pub open spec fn ctl_hi(self, i: int) -> i64 {
        s16_hi(self.control[i])
    }

    /// Vertex `i` (0 to 2), or the IR vector for 3.
    pub open spec fn vector(self, sel: int) -> V3 {
        if 0 <= sel < 3 {
            V3 { x: s16_lo(self.data[sel * 2]), y: s16_hi(self.data[sel * 2]), z: s16_lo(self.data[sel * 2 + 1]) }
        } else {
            V3 { x: self.ir(1), y: self.ir(2), z: self.ir(3) }
        }
    }

    /// Rotation (0), light (1), light colour (2), or the reserved matrix shape (3).
    pub open spec fn matrix(self, sel: int) -> M3 {
        if sel == 3 {
            let red = (self.data[6] & 0xff) as i64;
            let rt13 = self.ctl_lo(1);
            let rt22 = self.ctl_lo(2);
            M3 {
                r0: V3 { x: (-red * 16) as i64, y: (red * 16) as i64, z: self.ir(0) },
                r1: V3 { x: rt13, y: rt13, z: rt13 },
                r2: V3 { x: rt22, y: rt22, z: rt22 },
            }
        } else {
            let b = sel * 8;
            M3 {
                r0: V3 { x: self.ctl_lo(b), y: self.ctl_hi(b), z: self.ctl_lo(b + 1) },
                r1: V3 { x: self.ctl_hi(b + 1), y: self.ctl_lo(b + 2), z: self.ctl_hi(b + 2) },
                r2: V3 { x: self.ctl_lo(b + 3), y: self.ctl_hi(b + 3), z: self.ctl(b + 4) },
            }
        }
    }

    /// Translation (0), background colour (1), far colour (2), or zero.
    pub open spec fn control_vector(self, sel: int) -> V3 {
        if sel == 0 {
            V3 { x: self.ctl(5), y: self.ctl(6), z: self.ctl(7) }
        } else if sel == 1 {
            V3 { x: self.ctl(13), y: self.ctl(14), z: self.ctl(15) }
        } else if sel == 2 {
            V3 { x: self.ctl(21), y: self.ctl(22), z: self.ctl(23) }
        } else {
            V3 { x: 0, y: 0, z: 0 }
        }
    }

    pub open spec fn pack_orgb(self) -> u32 {
        let r = ((clamp_spec(self.ir(1) >> 7i64, 0, 0x1f) as u32) & 0x1f);
        let g = ((clamp_spec(self.ir(2) >> 7i64, 0, 0x1f) as u32) & 0x1f);
        let b = ((clamp_spec(self.ir(3) >> 7i64, 0, 0x1f) as u32) & 0x1f);
        r | (g << 5u32) | (b << 10u32)
    }

    /// What `MFC2`/`SWC2` reads from data register `index`.
    pub open spec fn read_data(self, index: int) -> u32 {
        let i = index % 32;
        if i == 1 || i == 3 || i == 5 || (8 <= i <= 11) {
            sign_extend16_spec(self.data[i])
        } else if i == 7 || (16 <= i <= 19) {
            self.data[i] & 0xffff
        } else if i == 15 {
            self.data[14]
        } else if i == 28 || i == 29 {
            self.pack_orgb()
        } else {
            self.data[i]
        }
    }

    // -----------------------------------------------------------------------
    // Register-file updates.

    pub open spec fn set_data(self, i: int, v: u32) -> GteRegs {
        GteRegs { data: self.data.update(i, v), control: self.control }
    }

    /// The registers after an MTC2 or LWC2 to data register `index`:
    /// half-word registers keep 16 bits (sign-extended where signed), SXYP
    /// pushes the screen-coordinate FIFO, IRGB expands into IR1-IR3, LZCS
    /// also sets LZCR, and LZCR itself is read-only.
    pub open spec fn write_data(self, index: int, value: u32) -> GteRegs {
        let i = index % 32;
        if i == 1 || i == 3 || i == 5 || (8 <= i <= 11) {
            self.set_data(i, sign_extend16_spec(value))
        } else if i == 7 || (16 <= i <= 19) {
            self.set_data(i, value & 0xffff)
        } else if i == 15 {
            self.push_sxy(value)
        } else if i == 28 {
            self.set_data(9, ((value & 0x1f) * 128) as i16 as i32 as u32).set_data(
                10,
                (((value >> 5u32) & 0x1f) * 128) as i16 as i32 as u32,
            ).set_data(11, (((value >> 10u32) & 0x1f) * 128) as i16 as i32 as u32)
        } else if i == 30 {
            self.set_data(30, value).set_data(
                31,
                if value & 0x8000_0000 == 0 { value.leading_zeros() } else { (!value).leading_zeros() },
            )
        } else if i == 31 {
            self
        } else {
            self.set_data(i, value)
        }
    }

    pub open spec fn set_flag(self, flag: u32) -> GteRegs {
        GteRegs {
            data: self.data,
            control: self.control.update(31, normalize_flag_spec((self.control[31] | flag) & FLAG_WRITE_MASK)),
        }
    }

    pub open spec fn set_mac0(self, value: i64) -> GteRegs {
        let r = if value > i32::MAX as i64 {
            self.set_flag(FLAG_MAC0_POS)
        } else if value < i32::MIN as i64 {
            self.set_flag(FLAG_MAC0_NEG)
        } else {
            self
        };
        r.set_data(24, value as i32 as u32)
    }

    pub open spec fn set_mac(self, index: int, value: i64) -> GteRegs {
        let r = if value > 0x7ff_ffff_ffff {
            self.set_flag(mac_pos_flag(index))
        } else if value < -0x800_0000_0000 {
            self.set_flag(mac_neg_flag(index))
        } else {
            self
        };
        r.set_data(24 + index, value as i32 as u32)
    }

    pub open spec fn limit_ir(self, index: int, value: i64, lm: bool, sf: bool) -> GteRegs {
        let flag_check = if sf { value } else { value >> 12i64 };
        let min: i64 = if lm { 0i64 } else { -0x8000i64 };
        let clamped = clamp_spec(value, min, 0x7fff);
        let r = if flag_check < min || flag_check > 0x7fff { self.set_flag(ir_sat_flag(index)) } else { self };
        r.set_data(8 + index, clamped as i16 as i32 as u32)
    }

    pub open spec fn limit_ir0(self, value: i64) -> GteRegs {
        let clamped = clamp_spec(value, 0i64, 0x1000i64);
        let r = if clamped != value { self.set_flag(FLAG_IR0_SAT) } else { self };
        r.set_data(8, clamped as u32)
    }

    pub open spec fn limit_unsigned16(self, value: i64) -> (GteRegs, u32) {
        let clamped = clamp_spec(value, 0, 0xffff);
        (if clamped != value { self.set_flag(FLAG_OTZ_SAT) } else { self }, clamped as u32)
    }

    /// The projection divide `(H << 16) / SZ3`, saturating at 0x1ffff.
    pub open spec fn divide(self, h: i64, sz3: u32) -> (GteRegs, u32) {
        if sz3 == 0 || h >= sz3 as i64 * 2 {
            (self.set_flag(FLAG_DIV_OVERFLOW), 0x1ffffu32)
        } else {
            (self, clamp_spec(trunc_div((h * 65536) as i64, sz3 as i64), 0, 0x1ffff) as u32)
        }
    }

    pub open spec fn project_screen(self, offset: i64, ir: i64, quotient: u32, is_x: bool) -> (GteRegs, i16) {
        let projected = ((offset + ir * quotient as i64) as i64) >> 16i64;
        let clamped = clamp_spec(projected, -0x400i64, 0x3ffi64);
        (
            if clamped != projected {
                self.set_flag(if is_x { FLAG_SX2_SAT } else { FLAG_SY2_SAT })
            } else {
                self
            },
            clamped as i16,
        )
    }

    pub open spec fn push_sxy(self, value: u32) -> GteRegs {
        GteRegs { data: self.data.update(12, self.data[13]).update(13, self.data[14]).update(14, value), control: self.control }
    }

    pub open spec fn push_sz(self, value: u32) -> GteRegs {
        GteRegs {
            data: self.data.update(16, self.data[17]).update(17, self.data[18]).update(18, self.data[19]).update(
                19,
                value & 0xffff,
            ),
            control: self.control,
        }
    }

    pub open spec fn limit_color(self, index: int, value: i64) -> (GteRegs, u32) {
        let clamped = clamp_spec(value, 0, 0xff);
        (if clamped != value { self.set_flag(rgb_sat_flag(index)) } else { self }, clamped as u32)
    }

    /// Saturates a colour to 8 bits per channel and pushes it with the RGBC
    /// code byte onto the three-entry colour FIFO.
    pub open spec fn push_color_fifo(self, values: V3) -> GteRegs {
        let (r1, red) = self.limit_color(0, values.x >> 4i64);
        let (r2, green) = r1.limit_color(1, values.y >> 4i64);
        let (r3, blue) = r2.limit_color(2, values.z >> 4i64);
        let code = (r3.data[6] >> 24u32) & 0xff;
        let color = (code << 24u32) | (blue << 16u32) | (green << 8u32) | red;
        GteRegs { data: r3.data.update(20, r3.data[21]).update(21, r3.data[22]).update(22, color), control: r3.control }
    }

    pub open spec fn set_vector_result(self, values: V3, lm: bool) -> GteRegs {
        self.set_mac(1, values.x).limit_ir(1, values.x, lm, true).set_mac(2, values.y).limit_ir(
            2,
            values.y,
            lm,
            true,
        ).set_mac(3, values.z).limit_ir(3, values.z, lm, true)
    }

    // -----------------------------------------------------------------------
    // Commands.

    /// One row of a matrix-vector multiply-add into MACi/IRi.
    pub open spec fn mac_row(self, reg: int, acc: i64, sf: bool, lm: bool) -> (GteRegs, i64) {
        let value = shift_by_sf_spec(acc, sf);
        (self.set_mac(reg, value).limit_ir(reg, value, lm, sf), value)
    }

    /// RTPS on vertex `index`: rotate and translate, push SZ3, project to
    /// screen space, push SXY2, and compute the depth-cue MAC0/IR0.
    pub open spec fn transform_vertex(self, index: int, sf: bool, lm: bool) -> GteRegs {
        let v = self.vector(index);
        let m = self.matrix(0);
        let t = self.control_vector(0);
        let (r1, mac1) = self.mac_row(1, (t.x * 4096 + dot(m.r0, v)) as i64, sf, lm);
        let (r2, mac2) = r1.mac_row(2, (t.y * 4096 + dot(m.r1, v)) as i64, sf, lm);
        let (r3, mac3) = r2.mac_row(3, (t.z * 4096 + dot(m.r2, v)) as i64, sf, lm);
        let depth = if sf { mac3 } else { mac3 >> 12i64 };
        let (r4, sz3) = r3.limit_unsigned16(depth);
        let r5 = r4.push_sz(sz3);
        let (r6, q) = r5.divide(r5.projection_h(), sz3);
        let (r7, sx) = r6.project_screen(r6.ctl(24), r6.ir(1), q, true);
        let (r8, sy) = r7.project_screen(r7.ctl(25), r7.ir(2), q, false);
        let r9 = r8.push_sxy((sx as u16 as u32) | ((sy as u16 as u32) << 16u32));
        let mac0 = (r9.ctl(28) + r9.ctl(27) * (q as i64)) as i64;
        r9.set_mac0(mac0).limit_ir0(mac0 >> 12i64)
    }

    pub open spec fn nclip(self) -> GteRegs {
        let sx0 = s16_lo(self.data[12]);
        let sy0 = s16_hi(self.data[12]);
        let sx1 = s16_lo(self.data[13]);
        let sy1 = s16_hi(self.data[13]);
        let sx2 = s16_lo(self.data[14]);
        let sy2 = s16_hi(self.data[14]);
        self.set_mac0((sx0 * (sy1 - sy2) + sx1 * (sy2 - sy0) + sx2 * (sy0 - sy1)) as i64)
    }

    pub open spec fn op(self, sf: bool, lm: bool) -> GteRegs {
        let d1 = self.ctl_lo(0);
        let d2 = self.ctl_lo(2);
        let d3 = self.ctl(4);
        let values = V3 {
            x: shift_by_sf_spec((self.ir(3) * d2 - self.ir(2) * d3) as i64, sf),
            y: shift_by_sf_spec((self.ir(1) * d3 - self.ir(3) * d1) as i64, sf),
            z: shift_by_sf_spec((self.ir(2) * d1 - self.ir(1) * d2) as i64, sf),
        };
        self.set_vector_result(values, lm)
    }

    pub open spec fn average_z(self, sum: i64, factor: i64) -> GteRegs {
        let mac0 = (sum * factor) as i64;
        let r1 = self.set_mac0(mac0);
        let (r2, otz) = r1.limit_unsigned16(mac0 >> 12i64);
        r2.set_data(7, otz)
    }

    pub open spec fn avsz3(self) -> GteRegs {
        self.average_z((self.data[17] + self.data[18] + self.data[19]) as i64, self.ctl(29))
    }

    pub open spec fn avsz4(self) -> GteRegs {
        self.average_z((self.data[16] + self.data[17] + self.data[18] + self.data[19]) as i64, self.ctl(30))
    }

    pub open spec fn mvmva(self, opcode: u32) -> GteRegs {
        let sf = sf_spec(opcode);
        let lm = lm_spec(opcode);
        let mx = ((opcode >> 17u32) & 3) as int;
        let vs = ((opcode >> 15u32) & 3) as int;
        let cs = ((opcode >> 13u32) & 3) as int;
        let m = self.matrix(mx);
        let v = self.vector(vs);
        let c = self.control_vector(cs);
        let acc1 = if cs == 2 { m.r0.y * v.y + m.r0.z * v.z } else { c.x * 4096 + dot(m.r0, v) };
        let acc2 = if cs == 2 { m.r1.y * v.y + m.r1.z * v.z } else { c.y * 4096 + dot(m.r1, v) };
        let acc3 = if cs == 2 { m.r2.y * v.y + m.r2.z * v.z } else { c.z * 4096 + dot(m.r2, v) };
        let (r1, _a) = self.mac_row(1, acc1 as i64, sf, lm);
        let (r2, _b) = r1.mac_row(2, acc2 as i64, sf, lm);
        let (r3, _c) = r2.mac_row(3, acc3 as i64, sf, lm);
        r3
    }

    pub open spec fn light_source_matrix(self, vi: int, sf: bool, lm: bool) -> (GteRegs, V3) {
        let m = self.matrix(1);
        let v = self.vector(vi);
        let values = V3 {
            x: shift_by_sf_spec(dot(m.r0, v), sf),
            y: shift_by_sf_spec(dot(m.r1, v), sf),
            z: shift_by_sf_spec(dot(m.r2, v), sf),
        };
        (self.set_vector_result(values, lm), values)
    }

    pub open spec fn light_color_matrix(self, sf: bool, lm: bool) -> (GteRegs, V3) {
        let m = self.matrix(2);
        let irv = V3 { x: self.ir(1), y: self.ir(2), z: self.ir(3) };
        let values = V3 {
            x: shift_by_sf_spec((self.ctl(13) * 4096 + dot(m.r0, irv)) as i64, sf),
            y: shift_by_sf_spec((self.ctl(14) * 4096 + dot(m.r1, irv)) as i64, sf),
            z: shift_by_sf_spec((self.ctl(15) * 4096 + dot(m.r2, irv)) as i64, sf),
        };
        (self.set_vector_result(values, lm), values)
    }

    pub open spec fn primary_color_product(self) -> (GteRegs, V3) {
        let c = color_components_spec(self.data[6]);
        let values = V3 {
            x: (c.x * self.ir(1) * 16) as i64,
            y: (c.y * self.ir(2) * 16) as i64,
            z: (c.z * self.ir(3) * 16) as i64,
        };
        (self.set_mac(1, values.x).set_mac(2, values.y).set_mac(3, values.z), values)
    }

    pub open spec fn finish_color_product(self, values: V3, sf: bool, lm: bool) -> (GteRegs, V3) {
        let shifted = V3 {
            x: shift_by_sf_spec(values.x, sf),
            y: shift_by_sf_spec(values.y, sf),
            z: shift_by_sf_spec(values.z, sf),
        };
        (self.set_vector_result(shifted, lm), shifted)
    }

    /// One channel of the far-colour interpolation.
    pub open spec fn interpolate_channel(self, reg: int, base: i64, sf: bool) -> (GteRegs, i64) {
        let r1 = self.set_mac(reg, base);
        let far = (r1.ctl(20 + reg) * 4096) as i64;
        let r2 = r1.limit_ir(reg, shift_by_sf_spec((far - base) as i64, sf), false, true);
        let interpolated = (base + r2.ir(reg) * r2.ir(0)) as i64;
        (r2.set_mac(reg, interpolated), shift_by_sf_spec(interpolated, sf))
    }

    pub open spec fn interpolate_far_color(self, base: V3, sf: bool, lm: bool) -> (GteRegs, V3) {
        let (r1, x) = self.interpolate_channel(1, base.x, sf);
        let (r2, y) = r1.interpolate_channel(2, base.y, sf);
        let (r3, z) = r2.interpolate_channel(3, base.z, sf);
        let values = V3 { x, y, z };
        (r3.set_vector_result(values, lm), values)
    }

    pub open spec fn normal_color(self, vi: int, opcode: u32, multiply_color: bool, depth_cue: bool) -> (GteRegs, V3) {
        let sf = sf_spec(opcode);
        let lm = lm_spec(opcode);
        let (r1, _l) = self.light_source_matrix(vi, sf, lm);
        let (r2, values) = r1.light_color_matrix(sf, lm);
        if !multiply_color {
            (r2, values)
        } else {
            let (r3, base) = r2.primary_color_product();
            if depth_cue {
                r3.interpolate_far_color(base, sf, lm)
            } else {
                r3.finish_color_product(base, sf, lm)
            }
        }
    }

    pub open spec fn normal_color_push(self, vi: int, opcode: u32, mc: bool, dc: bool) -> GteRegs {
        let (r, values) = self.normal_color(vi, opcode, mc, dc);
        r.push_color_fifo(values)
    }

    pub open spec fn ir_products(self, sf: bool) -> V3 {
        V3 {
            x: shift_by_sf_spec((self.ir(1) * self.ir(0)) as i64, sf),
            y: shift_by_sf_spec((self.ir(2) * self.ir(0)) as i64, sf),
            z: shift_by_sf_spec((self.ir(3) * self.ir(0)) as i64, sf),
        }
    }

    /// The effect of a GTE command word.  FLAG is cleared first.
    pub open spec fn execute(self, opcode: u32) -> GteRegs {
        let r = GteRegs { data: self.data, control: self.control.update(31, 0) };
        let f = opcode & 0x3f;
        let sf = sf_spec(opcode);
        let lm = lm_spec(opcode);
        if f == FN_RTPS {
            r.transform_vertex(0, sf, lm)
        } else if f == FN_RTPT {
            r.transform_vertex(0, sf, lm).transform_vertex(1, sf, lm).transform_vertex(2, sf, lm)
        } else if f == FN_NCLIP {
            r.nclip()
        } else if f == FN_OP {
            r.op(sf, lm)
        } else if f == FN_DPCS {
            let c = color_components_spec(r.data[6]);
            let (r1, v) = r.interpolate_far_color(V3 { x: (c.x * 65536) as i64, y: (c.y * 65536) as i64, z: (c.z * 65536) as i64 }, sf, lm);
            r1.push_color_fifo(v)
        } else if f == FN_INTPL {
            let (r1, v) = r.interpolate_far_color(V3 { x: (r.ir(1) * 4096) as i64, y: (r.ir(2) * 4096) as i64, z: (r.ir(3) * 4096) as i64 }, sf, lm);
            r1.push_color_fifo(v)
        } else if f == FN_MVMVA {
            r.mvmva(opcode)
        } else if f == FN_NCDS {
            r.normal_color_push(0, opcode, true, true)
        } else if f == FN_CDP {
            let (r1, _l) = r.light_color_matrix(sf, lm);
            let (r2, base) = r1.primary_color_product();
            let (r3, v) = r2.interpolate_far_color(base, sf, lm);
            r3.push_color_fifo(v)
        } else if f == FN_NCDT {
            r.normal_color_push(0, opcode, true, true).normal_color_push(1, opcode, true, true).normal_color_push(
                2,
                opcode,
                true,
                true,
            )
        } else if f == FN_NCCS {
            r.normal_color_push(0, opcode, true, false)
        } else if f == FN_CC {
            let (r1, _l) = r.light_color_matrix(sf, lm);
            let (r2, base) = r1.primary_color_product();
            let (r3, v) = r2.finish_color_product(base, sf, lm);
            r3.push_color_fifo(v)
        } else if f == FN_NCS {
            r.normal_color_push(0, opcode, false, false)
        } else if f == FN_NCT {
            r.normal_color_push(0, opcode, false, false).normal_color_push(1, opcode, false, false).normal_color_push(
                2,
                opcode,
                false,
                false,
            )
        } else if f == FN_SQR {
            r.set_vector_result(
                V3 {
                    x: shift_by_sf_spec((r.ir(1) * r.ir(1)) as i64, sf),
                    y: shift_by_sf_spec((r.ir(2) * r.ir(2)) as i64, sf),
                    z: shift_by_sf_spec((r.ir(3) * r.ir(3)) as i64, sf),
                },
                true,
            )
        } else if f == FN_DCPL {
            let (r1, base) = r.primary_color_product();
            let (r2, v) = r1.interpolate_far_color(base, sf, lm);
            r2.push_color_fifo(v)
        } else if f == FN_DPCT {
            r.dpct_step(sf, lm).dpct_step(sf, lm).dpct_step(sf, lm)
        } else if f == FN_AVSZ3 {
            r.avsz3()
        } else if f == FN_AVSZ4 {
            r.avsz4()
        } else if f == FN_GPF {
            let v = r.ir_products(sf);
            r.set_vector_result(v, lm).push_color_fifo(v)
        } else if f == FN_GPL {
            let v = V3 {
                x: shift_by_sf_spec((if sf { r.mac(1) * 4096 } else { r.mac(1) as int } + r.ir(1) * r.ir(0)) as i64, sf),
                y: shift_by_sf_spec((if sf { r.mac(2) * 4096 } else { r.mac(2) as int } + r.ir(2) * r.ir(0)) as i64, sf),
                z: shift_by_sf_spec((if sf { r.mac(3) * 4096 } else { r.mac(3) as int } + r.ir(3) * r.ir(0)) as i64, sf),
            };
            r.set_vector_result(v, lm).push_color_fifo(v)
        } else if f == FN_NCCT {
            r.normal_color_push(0, opcode, true, false).normal_color_push(1, opcode, true, false).normal_color_push(
                2,
                opcode,
                true,
                false,
            )
        } else {
            r
        }
    }

    /// One DPCT step: depth-cue the oldest colour FIFO entry.
    pub open spec fn dpct_step(self, sf: bool, lm: bool) -> GteRegs {
        let c = color_components_spec(self.data[20]);
        let (r1, v) = self.interpolate_far_color(V3 { x: (c.x * 65536) as i64, y: (c.y * 65536) as i64, z: (c.z * 65536) as i64 }, sf, lm);
        r1.push_color_fifo(v)
    }

    /// The register file is well formed: IR0 to IR3 and the three single-halfword
    /// matrix entries hold sign-extended 16-bit values, and the SZ FIFO holds
    /// 16-bit values.
    pub open spec fn wf(self) -> bool {
        &&& self.data.len() == 32
        &&& self.control.len() == 32
        &&& forall|i: int| 8 <= i < 12 ==> -0x8000 <= #[trigger] (self.data[i] as i32) <= 0x7fff
        &&& forall|i: int| 16 <= i < 20 ==> #[trigger] self.data[i] <= 0xffff
        &&& forall|i: int| (i == 4 || i == 12 || i == 20) ==> -0x8000 <= #[trigger] (self.control[i] as i32) <= 0x7fff
    }
}

} // verus!

verus! {

pub open spec fn bounded(v: i64, b: int) -> bool {
    -b <= v <= b
}

pub open spec fn v3_bounded(v: V3, b: int) -> bool {
    bounded(v.x, b) && bounded(v.y, b) && bounded(v.z, b)
}

pub open spec fn m3_bounded(m: M3, b: int) -> bool {
    v3_bounded(m.r0, b) && v3_bounded(m.r1, b) && v3_bounded(m.r2, b)
}


fn product(a: i64, b: i64) -> (r: i64)
    requires
        bounded(a, 0x8000),
        bounded(b, 0x8000),
    ensures
        r == a * b,
        bounded(r, 0x4000_0000),
{
    proof {
        crate::bits::lemma_mul_bounds(a as int, b as int, 0x8000, 0x8000);
    }
    a * b
}

fn dot_exec(row: V3, v: V3) -> (r: i64)
    requires
        v3_bounded(row, 0x8000),
        v3_bounded(v, 0x8000),
    ensures
        r == dot(row, v),
        bounded(r, 0xc000_0000),
{
    proof {
        crate::bits::lemma_mul_bounds(row.x as int, v.x as int, 0x8000, 0x8000);
        crate::bits::lemma_mul_bounds(row.y as int, v.y as int, 0x8000, 0x8000);
        crate::bits::lemma_mul_bounds(row.z as int, v.z as int, 0x8000, 0x8000);
    }
    row.x * v.x + row.y * v.y + row.z * v.z
}

fn clamp_i64(v: i64, lo: i64, hi: i64) -> (r: i64)
    requires
        lo <= hi,
    ensures
        r == clamp_spec(v, lo, hi),
        lo <= r <= hi,
{
    if v < lo {
        lo
    } else if v > hi {
        hi
    } else {
        v
    }
}

fn shift_by_sf(value: i64, sf: bool) -> (r: i64)
    ensures
        r == shift_by_sf_spec(value, sf),
{
    if sf {
        value >> 12i64
    } else {
        value
    }
}

fn normalize_flag(value: u32) -> (r: u32)
    ensures
        r == normalize_flag_spec(value),
{
    let flag = value & FLAG_WRITE_MASK;
    if (flag & FLAG_SUMMARY_MASK) != 0 {
        flag | FLAG_ERROR
    } else {
        flag
    }
}

fn sign_extend16(value: u32) -> (r: u32)
    ensures
        r == sign_extend16_spec(value),
        -0x8000 <= r as i32 <= 0x7fff,
{
    (value as u16 as i16 as i32) as u32
}

/// The count of leading bits equal to the sign bit (LZCR).
fn leading_sign_bits(value: u32) -> (r: u32)
    ensures
        r == if value & 0x8000_0000 == 0 { value.leading_zeros() } else { (!value).leading_zeros() },
{
    if (value & 0x8000_0000) == 0 {
        value.leading_zeros()
    } else {
        (!value).leading_zeros()
    }
}

fn shift_fraction(opcode: u32) -> (r: bool)
    ensures
        r == sf_spec(opcode),
{
    ((opcode >> 19) & 1) != 0
}

fn limit_mode(opcode: u32) -> (r: bool)
    ensures
        r == lm_spec(opcode),
{
    ((opcode >> 10) & 1) != 0
}

fn color_components(value: u32) -> (r: V3)
    ensures
        r == color_components_spec(value),
        0 <= r.x <= 0xff && 0 <= r.y <= 0xff && 0 <= r.z <= 0xff,
{
    V3 { x: (value & 0xff) as i64, y: ((value >> 8) & 0xff) as i64, z: ((value >> 16) & 0xff) as i64 }
}

fn trunc_div_exec(a: i64, b: i64) -> (r: i64)
    requires
        b > 0,
        bounded(a, 0x1_0000_0000_0000),
    ensures
        r == trunc_div(a, b),
{
    if a >= 0 {
        a / b
    } else {
        let n = -a;
        -(n / b)
    }
}

/// A CTC2 write of `value` to control register `index`.
pub open spec fn gte_control_written(o: Gte, index: usize, value: u32, n: Gte) -> bool {
    &&& (({
        let i = (index % 32) as int;
        n@.data == o@.data && n@.control == if i == 4 || i == 12 || i == 20
            || i == 26 || i == 27 || i == 29 || i == 30 {
            o@.control.update(i, sign_extend16_spec(value))
        } else if i == 31 {
            o@.control.update(31, normalize_flag_spec(value & FLAG_WRITE_MASK))
        } else {
            o@.control.update(i, value)
        }
    }))
}

impl Gte {
    pub open spec fn wf(&self) -> bool {
        self@.wf()
    }

    pub fn new() -> (r: Self)
        ensures
            r@.data == Seq::new(32, |i: int| 0u32),
            r@.control == Seq::new(32, |i: int| 0u32),
            r.wf(),
    {
        let r = Self { data: [0u32;32], control: [0u32;32] };
        assert(r@.data =~= Seq::new(32, |i: int| 0u32));
        assert(r@.control =~= Seq::new(32, |i: int| 0u32));
        r
    }

    pub fn reset(&mut self)
        ensures
            final(self)@.data == Seq::new(32, |i: int| 0u32),
            final(self)@.control == Seq::new(32, |i: int| 0u32),
            final(self).wf(),
    {
        self.data = [0u32;32];
        self.control = [0u32;32];
        assert(self@.data =~= Seq::new(32, |i: int| 0u32));
        assert(self@.control =~= Seq::new(32, |i: int| 0u32));
    }

    fn ir(&self, index: usize) -> (r: i64)
        requires
            index < 4,
            self.wf(),
        ensures
            r == self@.ir(index as int),
            bounded(r, 0x8000),
    {
        self.data[8 + index] as i32 as i64
    }

    fn mac(&self, index: usize) -> (r: i64)
        requires
            index < 4,
        ensures
            r == self@.mac(index as int),
            bounded(r, 0x8000_0000),
    {
        self.data[24 + index] as i32 as i64
    }

    fn ctl(&self, index: usize) -> (r: i64)
        requires
            index < 32,
        ensures
            r == self@.ctl(index as int),
            bounded(r, 0x8000_0000),
    {
        self.control[index] as i32 as i64
    }

    fn projection_h(&self) -> (r: i64)
        ensures
            r == self@.projection_h(),
            0 <= r <= 0xffff,
    {
        (self.control[26] & 0xffff) as i64
    }

    fn ctl_lo(&self, index: usize) -> (r: i64)
        requires
            index < 32,
        ensures
            r == self@.ctl_lo(index as int),
            bounded(r, 0x8000),
    {
        (self.control[index] as u16 as i16) as i64
    }

    fn ctl_hi(&self, index: usize) -> (r: i64)
        requires
            index < 32,
        ensures
            r == self@.ctl_hi(index as int),
            bounded(r, 0x8000),
    {
        ((self.control[index] >> 16) as u16 as i16) as i64
    }

    fn vector(&self, select: usize) -> (r: V3)
        requires
            self.wf(),
        ensures
            r == self@.vector(select as int),
            v3_bounded(r, 0x8000),
    {
        if select < 3 {
            let w0 = self.data[select * 2];
            let w1 = self.data[select * 2 + 1];
            V3 { x: (w0 as u16 as i16) as i64, y: ((w0 >> 16) as u16 as i16) as i64, z: (w1 as u16 as i16) as i64 }
        } else {
            V3 { x: self.ir(1), y: self.ir(2), z: self.ir(3) }
        }
    }

    fn matrix(&self, select: usize) -> (r: M3)
        requires
            select < 4,
            self.wf(),
        ensures
            r == self@.matrix(select as int),
            m3_bounded(r, 0x8000),
    {
        if select == 3 {
            let red = (self.data[6] & 0xff) as i64;
            let rt13 = self.ctl_lo(1);
            let rt22 = self.ctl_lo(2);
            M3 {
                r0: V3 { x: -red * 16, y: red * 16, z: self.ir(0) },
                r1: V3 { x: rt13, y: rt13, z: rt13 },
                r2: V3 { x: rt22, y: rt22, z: rt22 },
            }
        } else {
            let b = select * 8;
            let last = self.ctl(b + 4);
            assert(bounded(last, 0x8000));
            M3 {
                r0: V3 { x: self.ctl_lo(b), y: self.ctl_hi(b), z: self.ctl_lo(b + 1) },
                r1: V3 { x: self.ctl_hi(b + 1), y: self.ctl_lo(b + 2), z: self.ctl_hi(b + 2) },
                r2: V3 { x: self.ctl_lo(b + 3), y: self.ctl_hi(b + 3), z: last },
            }
        }
    }

    fn control_vector(&self, select: usize) -> (r: V3)
        ensures
            r == self@.control_vector(select as int),
            v3_bounded(r, 0x8000_0000),
    {
        if select == 0 {
            V3 { x: self.ctl(5), y: self.ctl(6), z: self.ctl(7) }
        } else if select == 1 {
            V3 { x: self.ctl(13), y: self.ctl(14), z: self.ctl(15) }
        } else if select == 2 {
            V3 { x: self.ctl(21), y: self.ctl(22), z: self.ctl(23) }
        } else {
            V3 { x: 0, y: 0, z: 0 }
        }
    }

    fn pack_orgb(&self) -> (r: u32)
        requires
            self.wf(),
        ensures
            r == self@.pack_orgb(),
    {
        let r = (clamp_i64(self.ir(1) >> 7i64, 0, 0x1f) as u32) & 0x1f;
        let g = (clamp_i64(self.ir(2) >> 7i64, 0, 0x1f) as u32) & 0x1f;
        let b = (clamp_i64(self.ir(3) >> 7i64, 0, 0x1f) as u32) & 0x1f;
        r | (g << 5u32) | (b << 10u32)
    }

    /// `MFC2`: data registers with their read special cases (sign or zero
    /// extension, the SXYP mirror, and ORGB packed from IR1 to IR3).
    pub fn read_data(&self, index: usize) -> (r: u32)
        requires
            self.wf(),
        ensures
            r == self@.read_data(index as int),
    {
        let i = index & 31;
        proof {
            crate::bits::lemma_mask_31_usize(index);
        }
        if i == 1 || i == 3 || i == 5 || (8 <= i && i <= 11) {
            sign_extend16(self.data[i])
        } else if i == 7 || (16 <= i && i <= 19) {
            self.data[i] & 0xffff
        } else if i == 15 {
            self.data[14]
        } else if i == 28 || i == 29 {
            self.pack_orgb()
        } else {
            self.data[i]
        }
    }

    /// `MTC2`: data registers with their write special cases.
    pub fn write_data(&mut self, index: usize, value: u32)
        requires
            old(self).wf(),
        ensures
            final(self).wf(),
            final(self)@ == old(self)@.write_data(index as int, value),
    {
        let i = index & 31;
        proof {
            crate::bits::lemma_mask_31_usize(index);
        }
        if i == 1 || i == 3 || i == 5 || (8 <= i && i <= 11) {
            self.data[i] = sign_extend16(value);
        } else if i == 7 || (16 <= i && i <= 19) {
            self.data[i] = value & 0xffff;
        } else if i == 15 {
            self.push_sxy_raw(value);
        } else if i == 28 {
            self.expand_irgb(value);
        } else if i == 30 {
            self.data[30] = value;
            self.data[31] = leading_sign_bits(value);
        } else if i == 31 {
        } else {
            self.data[i] = value;
        }
        assert(self@ =~= if i == 1 || i == 3 || i == 5 || (8 <= i <= 11) {
            old(self)@.set_data(i as int, sign_extend16_spec(value))
        } else if i == 7 || (16 <= i <= 19) {
            old(self)@.set_data(i as int, value & 0xffff)
        } else if i == 15 {
            old(self)@.push_sxy(value)
        } else if i == 28 {
            old(self)@.set_data(9, ((value & 0x1f) * 128) as i16 as i32 as u32).set_data(
                10,
                (((value >> 5u32) & 0x1f) * 128) as i16 as i32 as u32,
            ).set_data(11, (((value >> 10u32) & 0x1f) * 128) as i16 as i32 as u32)
        } else if i == 30 {
            old(self)@.set_data(30, value).set_data(
                31,
                if value & 0x8000_0000 == 0 { value.leading_zeros() } else { (!value).leading_zeros() },
            )
        } else if i == 31 {
            old(self)@
        } else {
            old(self)@.set_data(i as int, value)
        });
    }

    pub fn read_control(&self, index: usize) -> (r: u32)
        ensures
            r == self@.control[(index % 32) as int],
    {
        let i = index & 31;
        proof {
            crate::bits::lemma_mask_31_usize(index);
        }
        self.control[i]
    }

    /// `CTC2`: the single-halfword registers sign-extend; FLAG keeps only its
    /// writable bits and recomputes its error summary bit.
    pub fn write_control(&mut self, index: usize, value: u32)
        requires
            old(self).wf(),
        ensures
            final(self).wf(),
            gte_control_written(*old(self), index, value, *final(self)),
    {
        let i = index & 31;
        proof {
            crate::bits::lemma_mask_31_usize(index);
        }
        if i == 4 || i == 12 || i == 20 || i == 26 || i == 27 || i == 29 || i == 30 {
            self.control[i] = sign_extend16(value);
        } else if i == 31 {
            self.control[31] = normalize_flag(value & FLAG_WRITE_MASK);
        } else {
            self.control[i] = value;
        }
    }

    fn push_sxy_raw(&mut self, value: u32)
        requires
            old(self).wf(),
        ensures
            final(self)@ == old(self)@.push_sxy(value),
            final(self).wf(),
    {
        self.data[12] = self.data[13];
        self.data[13] = self.data[14];
        self.data[14] = value;
        assert(self@ =~= old(self)@.push_sxy(value));
    }

    fn push_sz(&mut self, value: u32)
        requires
            old(self).wf(),
        ensures
            final(self)@ == old(self)@.push_sz(value),
            final(self).wf(),
    {
        self.data[16] = self.data[17];
        self.data[17] = self.data[18];
        self.data[18] = self.data[19];
        self.data[19] = value & 0xffff;
        assert(self@ =~= old(self)@.push_sz(value));
    }

    fn expand_irgb(&mut self, value: u32)
        requires
            old(self).wf(),
        ensures
            final(self)@ == old(self)@.set_data(9, ((value & 0x1f) * 128) as i16 as i32 as u32).set_data(
                10,
                (((value >> 5u32) & 0x1f) * 128) as i16 as i32 as u32,
            ).set_data(11, (((value >> 10u32) & 0x1f) * 128) as i16 as i32 as u32),
            final(self).wf(),
    {
        self.data[9] = ((value & 0x1f) * 128) as i16 as i32 as u32;
        self.data[10] = (((value >> 5) & 0x1f) * 128) as i16 as i32 as u32;
        self.data[11] = (((value >> 10) & 0x1f) * 128) as i16 as i32 as u32;
        assert(self@ =~= old(self)@.set_data(9, ((value & 0x1f) * 128) as i16 as i32 as u32).set_data(
            10,
            (((value >> 5u32) & 0x1f) * 128) as i16 as i32 as u32,
        ).set_data(11, (((value >> 10u32) & 0x1f) * 128) as i16 as i32 as u32));
    }

    fn set_flag(&mut self, flag: u32)
        requires
            old(self).wf(),
        ensures
            final(self)@ == old(self)@.set_flag(flag),
            final(self).wf(),
    {
        self.control[31] = normalize_flag((self.control[31] | flag) & FLAG_WRITE_MASK);
        assert(self@ =~= old(self)@.set_flag(flag));
    }

    fn set_mac0(&mut self, value: i64)
        requires
            old(self).wf(),
        ensures
            final(self)@ == old(self)@.set_mac0(value),
            final(self).wf(),
    {
        if value > 0x7fff_ffff {
            self.set_flag(FLAG_MAC0_POS);
        } else if value < -0x8000_0000 {
            self.set_flag(FLAG_MAC0_NEG);
        }
        let ghost mid = self@;
        self.data[24] = value as i32 as u32;
        assert(self@ =~= mid.set_data(24, value as i32 as u32));
    }

    fn set_mac(&mut self, index: usize, value: i64)
        requires
            1 <= index <= 3,
            old(self).wf(),
        ensures
            final(self)@ == old(self)@.set_mac(index as int, value),
            final(self).wf(),
    {
        if value > 0x7ff_ffff_ffff {
            self.set_flag(
                if index == 1 {
                    FLAG_MAC1_POS
                } else if index == 2 {
                    FLAG_MAC2_POS
                } else {
                    FLAG_MAC3_POS
                },
            );
        } else if value < -0x800_0000_0000 {
            self.set_flag(
                if index == 1 {
                    FLAG_MAC1_NEG
                } else if index == 2 {
                    FLAG_MAC2_NEG
                } else {
                    FLAG_MAC3_NEG
                },
            );
        }
        let ghost mid = self@;
        self.data[24 + index] = value as i32 as u32;
        assert(self@ =~= mid.set_data(24 + index, value as i32 as u32));
    }

    fn limit_ir(&mut self, index: usize, value: i64, lm: bool, sf: bool)
        requires
            1 <= index <= 3,
            old(self).wf(),
        ensures
            final(self)@ == old(self)@.limit_ir(index as int, value, lm, sf),
            final(self).wf(),
    {
        let flag_check = if sf {
            value
        } else {
            value >> 12i64
        };
        let min: i64 = if lm {
            0
        } else {
            -0x8000
        };
        let clamped = clamp_i64(value, min, 0x7fff);
        if flag_check < min || flag_check > 0x7fff {
            self.set_flag(
                if index == 1 {
                    FLAG_IR1_SAT
                } else if index == 2 {
                    FLAG_IR2_SAT
                } else {
                    FLAG_IR3_SAT
                },
            );
        }
        let ghost mid = self@;
        self.data[8 + index] = clamped as i16 as i32 as u32;
        assert(self@ =~= mid.set_data(8 + index, clamped as i16 as i32 as u32));
    }

    fn limit_ir0(&mut self, value: i64)
        requires
            old(self).wf(),
        ensures
            final(self)@ == old(self)@.limit_ir0(value),
            final(self).wf(),
    {
        let clamped = clamp_i64(value, 0, 0x1000);
        if clamped != value {
            self.set_flag(FLAG_IR0_SAT);
        }
        let ghost mid = self@;
        self.data[8] = clamped as u32;
        assert(self@ =~= mid.set_data(8, clamped as u32));
    }

    fn limit_unsigned16(&mut self, value: i64) -> (r: u32)
        requires
            old(self).wf(),
        ensures
            (final(self)@, r) == old(self)@.limit_unsigned16(value),
            final(self).wf(),
            r <= 0xffff,
    {
        let clamped = clamp_i64(value, 0, 0xffff);
        if clamped != value {
            self.set_flag(FLAG_OTZ_SAT);
        }
        clamped as u32
    }

    fn divide(&mut self, h: i64, sz3: u32) -> (r: u32)
        requires
            old(self).wf(),
            bounded(h, 0x8000_0000),
        ensures
            (final(self)@, r) == old(self)@.divide(h, sz3),
            final(self).wf(),
            r <= 0x1ffff,
    {
        if sz3 == 0 || h >= (sz3 as i64 * 2) {
            self.set_flag(FLAG_DIV_OVERFLOW);
            0x1ffff
        } else {
            clamp_i64(trunc_div_exec(h * 65536, sz3 as i64), 0, 0x1ffff) as u32
        }
    }

    fn project_screen(&mut self, offset: i64, ir: i64, quotient: u32, is_x: bool) -> (r: i16)
        requires
            old(self).wf(),
            bounded(offset, 0x8000_0000),
            bounded(ir, 0x8000),
            quotient <= 0x1ffff,
        ensures
            (final(self)@, r) == old(self)@.project_screen(offset, ir, quotient, is_x),
            final(self).wf(),
    {
        proof {
            crate::bits::lemma_mul_bounds(ir as int, quotient as int, 0x8000, 0x1ffff);
        }
        let projected = (offset + ir * quotient as i64) >> 16i64;
        let clamped = clamp_i64(projected, -0x400, 0x3ff);
        if clamped != projected {
            self.set_flag(
                if is_x {
                    FLAG_SX2_SAT
                } else {
                    FLAG_SY2_SAT
                },
            );
        }
        clamped as i16
    }

    fn limit_color_channel(&mut self, index: usize, value: i64) -> (r: u32)
        requires
            index < 3,
            old(self).wf(),
        ensures
            (final(self)@, r) == old(self)@.limit_color(index as int, value),
            final(self).wf(),
    {
        let clamped = clamp_i64(value, 0, 0xff);
        if clamped != value {
            self.set_flag(
                if index == 0 {
                    FLAG_RGB_R_SAT
                } else if index == 1 {
                    FLAG_RGB_G_SAT
                } else {
                    FLAG_RGB_B_SAT
                },
            );
        }
        clamped as u32
    }

    fn push_color_fifo(&mut self, values: V3)
        requires
            old(self).wf(),
        ensures
            final(self)@ == old(self)@.push_color_fifo(values),
            final(self).wf(),
    {
        let red = self.limit_color_channel(0, values.x >> 4i64);
        let green = self.limit_color_channel(1, values.y >> 4i64);
        let blue = self.limit_color_channel(2, values.z >> 4i64);
        let code = (self.data[6] >> 24) & 0xff;
        let color = (code << 24) | (blue << 16) | (green << 8) | red;
        let ghost mid = self@;
        self.data[20] = self.data[21];
        self.data[21] = self.data[22];
        self.data[22] = color;
        assert(self@ =~= GteRegs {
            data: mid.data.update(20, mid.data[21]).update(21, mid.data[22]).update(22, color),
            control: mid.control,
        });
    }

    fn set_vector_result(&mut self, values: V3, lm: bool)
        requires
            old(self).wf(),
        ensures
            final(self)@ == old(self)@.set_vector_result(values, lm),
            final(self).wf(),
    {
        self.set_mac(1, values.x);
        self.limit_ir(1, values.x, lm, true);
        self.set_mac(2, values.y);
        self.limit_ir(2, values.y, lm, true);
        self.set_mac(3, values.z);
        self.limit_ir(3, values.z, lm, true);
    }

    fn mac_row(&mut self, reg: usize, acc: i64, sf: bool, lm: bool) -> (r: i64)
        requires
            1 <= reg <= 3,
            old(self).wf(),
        ensures
            (final(self)@, r) == old(self)@.mac_row(reg as int, acc, sf, lm),
            final(self).wf(),
    {
        let value = shift_by_sf(acc, sf);
        self.set_mac(reg, value);
        self.limit_ir(reg, value, lm, sf);
        value
    }

    fn transform_vertex(&mut self, index: usize, sf: bool, lm: bool)
        requires
            index < 3,
            old(self).wf(),
        ensures
            final(self)@ == old(self)@.transform_vertex(index as int, sf, lm),
            final(self).wf(),
    {
        let v = self.vector(index);
        let m = self.matrix(0);
        let t = self.control_vector(0);
        let d0 = dot_exec(m.r0, v);
        let d1 = dot_exec(m.r1, v);
        let d2 = dot_exec(m.r2, v);
        let _mac1 = self.mac_row(1, t.x * 4096 + d0, sf, lm);
        let _mac2 = self.mac_row(2, t.y * 4096 + d1, sf, lm);
        let mac3 = self.mac_row(3, t.z * 4096 + d2, sf, lm);
        let depth = if sf {
            mac3
        } else {
            mac3 >> 12i64
        };
        let sz3 = self.limit_unsigned16(depth);
        self.push_sz(sz3);
        let h = self.projection_h();
        let quotient = self.divide(h, sz3);
        let ofx = self.ctl(24);
        let ir1 = self.ir(1);
        let sx = self.project_screen(ofx, ir1, quotient, true);
        let ofy = self.ctl(25);
        let ir2 = self.ir(2);
        let sy = self.project_screen(ofy, ir2, quotient, false);
        self.push_sxy_raw((sx as u16 as u32) | ((sy as u16 as u32) << 16u32));
        let dqb = self.ctl(28);
        let dqa = self.ctl(27);
        proof {
            crate::bits::lemma_mul_bounds(dqa as int, quotient as int, 0x8000_0000, 0x1ffff);
        }
        let mac0 = dqb + dqa * (quotient as i64);
        self.set_mac0(mac0);
        self.limit_ir0(mac0 >> 12i64);
    }

    fn nclip(&mut self)
        requires
            old(self).wf(),
        ensures
            final(self)@ == old(self)@.nclip(),
            final(self).wf(),
    {
        let sx0 = (self.data[12] as u16 as i16) as i64;
        let sy0 = ((self.data[12] >> 16) as u16 as i16) as i64;
        let sx1 = (self.data[13] as u16 as i16) as i64;
        let sy1 = ((self.data[13] >> 16) as u16 as i16) as i64;
        let sx2 = (self.data[14] as u16 as i16) as i64;
        let sy2 = ((self.data[14] >> 16) as u16 as i16) as i64;
        proof {
            crate::bits::lemma_mul_bounds(sx0 as int, (sy1 - sy2) as int, 0x8000, 0x10000);
            crate::bits::lemma_mul_bounds(sx1 as int, (sy2 - sy0) as int, 0x8000, 0x10000);
            crate::bits::lemma_mul_bounds(sx2 as int, (sy0 - sy1) as int, 0x8000, 0x10000);
        }
        let value = sx0 * (sy1 - sy2) + sx1 * (sy2 - sy0) + sx2 * (sy0 - sy1);
        self.set_mac0(value);
    }

    fn op(&mut self, sf: bool, lm: bool)
        requires
            old(self).wf(),
        ensures
            final(self)@ == old(self)@.op(sf, lm),
            final(self).wf(),
    {
        let d1 = self.ctl_lo(0);
        let d2 = self.ctl_lo(2);
        let d3 = self.ctl(4);
        assert(bounded(d3, 0x8000));
        let ir1 = self.ir(1);
        let ir2 = self.ir(2);
        let ir3 = self.ir(3);
        let values = V3 {
            x: shift_by_sf(product(ir3, d2) - product(ir2, d3), sf),
            y: shift_by_sf(product(ir1, d3) - product(ir3, d1), sf),
            z: shift_by_sf(product(ir2, d1) - product(ir1, d2), sf),
        };
        self.set_vector_result(values, lm);
    }

    fn average_z(&mut self, sum: i64, factor: i64)
        requires
            old(self).wf(),
            0 <= sum <= 0x4_0000,
            bounded(factor, 0x8000_0000),
        ensures
            final(self)@ == old(self)@.average_z(sum, factor),
            final(self).wf(),
    {
        proof {
            crate::bits::lemma_mul_bounds(sum as int, factor as int, 0x4_0000, 0x8000_0000);
        }
        let mac0 = sum * factor;
        self.set_mac0(mac0);
        let otz = self.limit_unsigned16(mac0 >> 12i64);
        let ghost mid = self@;
        self.data[7] = otz;
        assert(self@ =~= mid.set_data(7, otz));
    }

    fn mvmva(&mut self, opcode: u32)
        requires
            old(self).wf(),
        ensures
            final(self)@ == old(self)@.mvmva(opcode),
            final(self).wf(),
    {
        let sf = shift_fraction(opcode);
        let lm = limit_mode(opcode);
        let mx = ((opcode >> 17) & 0x3) as usize;
        let vector_select = ((opcode >> 15) & 0x3) as usize;
        let control_select = ((opcode >> 13) & 0x3) as usize;
        let m = self.matrix(mx);
        let v = self.vector(vector_select);
        let c = self.control_vector(control_select);
        let acc1 = if control_select == 2 {
            product(m.r0.y, v.y) + product(m.r0.z, v.z)
        } else {
            c.x * 4096 + dot_exec(m.r0, v)
        };
        let acc2 = if control_select == 2 {
            product(m.r1.y, v.y) + product(m.r1.z, v.z)
        } else {
            c.y * 4096 + dot_exec(m.r1, v)
        };
        let acc3 = if control_select == 2 {
            product(m.r2.y, v.y) + product(m.r2.z, v.z)
        } else {
            c.z * 4096 + dot_exec(m.r2, v)
        };
        self.mac_row(1, acc1, sf, lm);
        self.mac_row(2, acc2, sf, lm);
        self.mac_row(3, acc3, sf, lm);
    }

    fn light_source_matrix(&mut self, vector_index: usize, sf: bool, lm: bool) -> (r: V3)
        requires
            old(self).wf(),
        ensures
            (final(self)@, r) == old(self)@.light_source_matrix(vector_index as int, sf, lm),
            final(self).wf(),
    {
        let m = self.matrix(1);
        let v = self.vector(vector_index);
        let values = V3 {
            x: shift_by_sf(dot_exec(m.r0, v), sf),
            y: shift_by_sf(dot_exec(m.r1, v), sf),
            z: shift_by_sf(dot_exec(m.r2, v), sf),
        };
        self.set_vector_result(values, lm);
        values
    }

    fn light_color_matrix(&mut self, sf: bool, lm: bool) -> (r: V3)
        requires
            old(self).wf(),
        ensures
            (final(self)@, r) == old(self)@.light_color_matrix(sf, lm),
            final(self).wf(),
    {
        let m = self.matrix(2);
        let irv = V3 { x: self.ir(1), y: self.ir(2), z: self.ir(3) };
        let values = V3 {
            x: shift_by_sf(self.ctl(13) * 4096 + dot_exec(m.r0, irv), sf),
            y: shift_by_sf(self.ctl(14) * 4096 + dot_exec(m.r1, irv), sf),
            z: shift_by_sf(self.ctl(15) * 4096 + dot_exec(m.r2, irv), sf),
        };
        self.set_vector_result(values, lm);
        values
    }

    fn primary_color_product(&mut self) -> (r: V3)
        requires
            old(self).wf(),
        ensures
            (final(self)@, r) == old(self)@.primary_color_product(),
            final(self).wf(),
            v3_bounded(r, 0x800_0000),
    {
        let c = color_components(self.data[6]);
        let ir1 = self.ir(1);
        let ir2 = self.ir(2);
        let ir3 = self.ir(3);
        proof {
            crate::bits::lemma_mul_bounds(c.x as int, ir1 as int, 0xff, 0x8000);
            crate::bits::lemma_mul_bounds(c.y as int, ir2 as int, 0xff, 0x8000);
            crate::bits::lemma_mul_bounds(c.z as int, ir3 as int, 0xff, 0x8000);
        }
        let values = V3 { x: c.x * ir1 * 16, y: c.y * ir2 * 16, z: c.z * ir3 * 16 };
        self.set_mac(1, values.x);
        self.set_mac(2, values.y);
        self.set_mac(3, values.z);
        values
    }

    fn finish_color_product(&mut self, values: V3, sf: bool, lm: bool) -> (r: V3)
        requires
            old(self).wf(),
        ensures
            (final(self)@, r) == old(self)@.finish_color_product(values, sf, lm),
            final(self).wf(),
    {
        let shifted = V3 { x: shift_by_sf(values.x, sf), y: shift_by_sf(values.y, sf), z: shift_by_sf(values.z, sf) };
        self.set_vector_result(shifted, lm);
        shifted
    }

    fn interpolate_channel(&mut self, reg: usize, base: i64, sf: bool) -> (r: i64)
        requires
            1 <= reg <= 3,
            old(self).wf(),
            bounded(base, 0x800_0000),
        ensures
            (final(self)@, r) == old(self)@.interpolate_channel(reg as int, base, sf),
            final(self).wf(),
    {
        self.set_mac(reg, base);
        let far = self.ctl(20 + reg) * 4096;
        self.limit_ir(reg, shift_by_sf(far - base, sf), false, true);
        let interpolated = base + product(self.ir(reg), self.ir(0));
        self.set_mac(reg, interpolated);
        shift_by_sf(interpolated, sf)
    }

    fn interpolate_far_color(&mut self, base: V3, sf: bool, lm: bool) -> (r: V3)
        requires
            old(self).wf(),
            v3_bounded(base, 0x800_0000),
        ensures
            (final(self)@, r) == old(self)@.interpolate_far_color(base, sf, lm),
            final(self).wf(),
    {
        let x = self.interpolate_channel(1, base.x, sf);
        let y = self.interpolate_channel(2, base.y, sf);
        let z = self.interpolate_channel(3, base.z, sf);
        let values = V3 { x, y, z };
        self.set_vector_result(values, lm);
        values
    }

    fn normal_color(&mut self, vector_index: usize, opcode: u32, multiply_color: bool, depth_cue: bool) -> (r: V3)
        requires
            old(self).wf(),
        ensures
            (final(self)@, r) == old(self)@.normal_color(vector_index as int, opcode, multiply_color, depth_cue),
            final(self).wf(),
    {
        let sf = shift_fraction(opcode);
        let lm = limit_mode(opcode);
        self.light_source_matrix(vector_index, sf, lm);
        let values = self.light_color_matrix(sf, lm);
        if !multiply_color {
            return values;
        }
        let base = self.primary_color_product();
        if depth_cue {
            self.interpolate_far_color(base, sf, lm)
        } else {
            self.finish_color_product(base, sf, lm)
        }
    }

    fn normal_color_push(&mut self, vector_index: usize, opcode: u32, multiply_color: bool, depth_cue: bool)
        requires
            old(self).wf(),
        ensures
            final(self)@ == old(self)@.normal_color_push(vector_index as int, opcode, multiply_color, depth_cue),
            final(self).wf(),
    {
        let values = self.normal_color(vector_index, opcode, multiply_color, depth_cue);
        self.push_color_fifo(values);
    }

    fn dpct_step(&mut self, sf: bool, lm: bool)
        requires
            old(self).wf(),
        ensures
            final(self)@ == old(self)@.dpct_step(sf, lm),
            final(self).wf(),
    {
        let c = color_components(self.data[20]);
        let values = self.interpolate_far_color(V3 { x: c.x * 65536, y: c.y * 65536, z: c.z * 65536 }, sf, lm);
        self.push_color_fifo(values);
    }

    /// Executes a COP2 command word.  FLAG is cleared first; unknown function
    /// codes only clear FLAG.
    pub fn execute_command(&mut self, opcode: u32)
        requires
            old(self).wf(),
        ensures
            final(self)@ == old(self)@.execute(opcode),
            final(self).wf(),
    {
        self.control[31] = 0;
        let f = opcode & 0x3f;
        let sf = shift_fraction(opcode);
        let lm = limit_mode(opcode);
        if f == FN_RTPS {
            self.transform_vertex(0, sf, lm);
        } else if f == FN_RTPT {
            self.transform_vertex(0, sf, lm);
            self.transform_vertex(1, sf, lm);
            self.transform_vertex(2, sf, lm);
        } else if f == FN_NCLIP {
            self.nclip();
        } else if f == FN_OP {
            self.op(sf, lm);
        } else if f == FN_DPCS {
            let c = color_components(self.data[6]);
            let v = self.interpolate_far_color(V3 { x: c.x * 65536, y: c.y * 65536, z: c.z * 65536 }, sf, lm);
            self.push_color_fifo(v);
        } else if f == FN_INTPL {
            let base = V3 { x: self.ir(1) * 4096, y: self.ir(2) * 4096, z: self.ir(3) * 4096 };
            let v = self.interpolate_far_color(base, sf, lm);
            self.push_color_fifo(v);
        } else if f == FN_MVMVA {
            self.mvmva(opcode);
        } else if f == FN_NCDS {
            self.normal_color_push(0, opcode, true, true);
        } else if f == FN_CDP {
            self.light_color_matrix(sf, lm);
            let base = self.primary_color_product();
            let v = self.interpolate_far_color(base, sf, lm);
            self.push_color_fifo(v);
        } else if f == FN_NCDT {
            self.normal_color_push(0, opcode, true, true);
            self.normal_color_push(1, opcode, true, true);
            self.normal_color_push(2, opcode, true, true);
        } else if f == FN_NCCS {
            self.normal_color_push(0, opcode, true, false);
        } else if f == FN_CC {
            self.light_color_matrix(sf, lm);
            let base = self.primary_color_product();
            let v = self.finish_color_product(base, sf, lm);
            self.push_color_fifo(v);
        } else if f == FN_NCS {
            self.normal_color_push(0, opcode, false, false);
        } else if f == FN_NCT {
            self.normal_color_push(0, opcode, false, false);
            self.normal_color_push(1, opcode, false, false);
            self.normal_color_push(2, opcode, false, false);
        } else if f == FN_SQR {
            let ir1 = self.ir(1);
            let ir2 = self.ir(2);
            let ir3 = self.ir(3);
            let values = V3 {
                x: shift_by_sf(product(ir1, ir1), sf),
                y: shift_by_sf(product(ir2, ir2), sf),
                z: shift_by_sf(product(ir3, ir3), sf),
            };
            self.set_vector_result(values, true);
        } else if f == FN_DCPL {
            let base = self.primary_color_product();
            let v = self.interpolate_far_color(base, sf, lm);
            self.push_color_fifo(v);
        } else if f == FN_DPCT {
            self.dpct_step(sf, lm);
            self.dpct_step(sf, lm);
            self.dpct_step(sf, lm);
        } else if f == FN_AVSZ3 {
            let sum = self.data[17] as i64 + self.data[18] as i64 + self.data[19] as i64;
            let factor = self.ctl(29);
            self.average_z(sum, factor);
        } else if f == FN_AVSZ4 {
            let sum = self.data[16] as i64 + self.data[17] as i64 + self.data[18] as i64 + self.data[19] as i64;
            let factor = self.ctl(30);
            self.average_z(sum, factor);
        } else if f == FN_GPF {
            let ir0 = self.ir(0);
            let values = V3 {
                x: shift_by_sf(product(self.ir(1), ir0), sf),
                y: shift_by_sf(product(self.ir(2), ir0), sf),
                z: shift_by_sf(product(self.ir(3), ir0), sf),
            };
            self.set_vector_result(values, lm);
            self.push_color_fifo(values);
        } else if f == FN_GPL {
            let ir0 = self.ir(0);
            let m1 = if sf { self.mac(1) * 4096 } else { self.mac(1) };
            let m2 = if sf { self.mac(2) * 4096 } else { self.mac(2) };
            let m3 = if sf { self.mac(3) * 4096 } else { self.mac(3) };
            let values = V3 {
                x: shift_by_sf(m1 + product(self.ir(1), ir0), sf),
                y: shift_by_sf(m2 + product(self.ir(2), ir0), sf),
                z: shift_by_sf(m3 + product(self.ir(3), ir0), sf),
            };
            self.set_vector_result(values, lm);
            self.push_color_fifo(values);
        } else if f == FN_NCCT {
            self.normal_color_push(0, opcode, true, false);
            self.normal_color_push(1, opcode, true, false);
            self.normal_color_push(2, opcode, true, false);
        }
    }
}

impl Default for Gte {
    fn default() -> (r: Self)
        ensures
            r@.data == Seq::new(32, |i: int| 0u32),
            r@.control == Seq::new(32, |i: int| 0u32),
            r.wf(),
    {
        Self::new()
    }
}

} // verus!

verus! {

/// Two register sets agree on what the depth-cued colour stage reads: RGBC,
/// IR0-IR3 and the far colour.
pub open spec fn colour_inputs_agree(r: GteRegs, s: GteRegs) -> bool {
    &&& r.data.len() == 32 && r.control.len() == 32
    &&& s.data.len() == 32 && s.control.len() == 32
    &&& r.data[6] == s.data[6]
    &&& r.data[8] == s.data[8] && r.data[9] == s.data[9] && r.data[10] == s.data[10] && r.data[11] == s.data[11]
    &&& r.control[21] == s.control[21] && r.control[22] == s.control[22] && r.control[23] == s.control[23]
}

/// Raising a FLAG bit changes only FLAG.
proof fn lemma_flag_frame(r: GteRegs, flag: u32)
    requires
        r.control.len() == 32,
    ensures
        r.set_flag(flag).data == r.data,
        r.set_flag(flag).control.len() == 32,
        forall|i: int| 0 <= i < 32 && i != 31 ==> #[trigger] r.set_flag(flag).control[i] == r.control[i],
{
}

/// Writing MACi, or IRi with a value, keeps the colour-stage inputs agreeing.
proof fn lemma_result_writes_agree(r: GteRegs, s: GteRegs, index: int, value: i64, lm: bool, sf: bool)
    requires
        colour_inputs_agree(r, s),
        1 <= index <= 3,
    ensures
        colour_inputs_agree(r.set_mac(index, value), s.set_mac(index, value)),
        r.set_mac(index, value).mac(index) == s.set_mac(index, value).mac(index),
        colour_inputs_agree(r.limit_ir(index, value, lm, sf), s.limit_ir(index, value, lm, sf)),
        r.limit_ir(index, value, lm, sf).ir(index) == s.limit_ir(index, value, lm, sf).ir(index),
        r.limit_ir(index, value, lm, sf).data[24 + index] == r.data[24 + index],
        s.limit_ir(index, value, lm, sf).data[24 + index] == s.data[24 + index],
{
    lemma_flag_frame(r, mac_pos_flag(index));
    lemma_flag_frame(r, mac_neg_flag(index));
    lemma_flag_frame(s, mac_pos_flag(index));
    lemma_flag_frame(s, mac_neg_flag(index));
    lemma_flag_frame(r, ir_sat_flag(index));
    lemma_flag_frame(s, ir_sat_flag(index));
}

/// The colour product reads only RGBC and IR1-IR3.
proof fn lemma_product_agrees(r: GteRegs, s: GteRegs)
    requires
        colour_inputs_agree(r, s),
    ensures
        r.primary_color_product().1 == s.primary_color_product().1,
        colour_inputs_agree(r.primary_color_product().0, s.primary_color_product().0),
{
    let c = color_components_spec(r.data[6]);
    let v = V3 { x: (c.x * r.ir(1) * 16) as i64, y: (c.y * r.ir(2) * 16) as i64, z: (c.z * r.ir(3) * 16) as i64 };
    assert(r.primary_color_product().1 == v);
    lemma_result_writes_agree(r, s, 1, v.x, false, false);
    let r1 = r.set_mac(1, v.x);
    let s1 = s.set_mac(1, v.x);
    lemma_result_writes_agree(r1, s1, 2, v.y, false, false);
    let r2 = r1.set_mac(2, v.y);
    let s2 = s1.set_mac(2, v.y);
    lemma_result_writes_agree(r2, s2, 3, v.z, false, false);
}

/// One channel of the far-colour interpolation gives the same value on
/// agreeing register sets and keeps them agreeing.
proof fn lemma_channel_agrees(r: GteRegs, s: GteRegs, reg: int, base: i64, sf: bool)
    requires
        colour_inputs_agree(r, s),
        1 <= reg <= 3,
    ensures
        r.interpolate_channel(reg, base, sf).1 == s.interpolate_channel(reg, base, sf).1,
        colour_inputs_agree(r.interpolate_channel(reg, base, sf).0, s.interpolate_channel(reg, base, sf).0),
{
    lemma_result_writes_agree(r, s, reg, base, false, true);
    let r1 = r.set_mac(reg, base);
    let s1 = s.set_mac(reg, base);
    assert(r1.ctl(20 + reg) == s1.ctl(20 + reg));
    let far = (r1.ctl(20 + reg) * 4096) as i64;
    let value = shift_by_sf_spec((far - base) as i64, sf);
    lemma_result_writes_agree(r1, s1, reg, value, false, true);
    let r2 = r1.limit_ir(reg, value, false, true);
    let s2 = s1.limit_ir(reg, value, false, true);
    assert(r2.ir(reg) == s2.ir(reg) && r2.ir(0) == s2.ir(0));
    let interpolated = (base + r2.ir(reg) * r2.ir(0)) as i64;
    lemma_result_writes_agree(r2, s2, reg, interpolated, false, true);
}

/// Storing a result vector gives the same MAC1-3 and IR1-3 on agreeing
/// register sets and keeps them agreeing.
proof fn lemma_vector_result_agrees(r: GteRegs, s: GteRegs, v: V3, lm: bool)
    requires
        colour_inputs_agree(r, s),
    ensures
        colour_inputs_agree(r.set_vector_result(v, lm), s.set_vector_result(v, lm)),
        forall|i: int| 1 <= i <= 3 ==> #[trigger] r.set_vector_result(v, lm).mac(i) == s.set_vector_result(v, lm).mac(i),
        forall|i: int| 1 <= i <= 3 ==> #[trigger] r.set_vector_result(v, lm).ir(i) == s.set_vector_result(v, lm).ir(i),
{
    let r1 = r.set_mac(1, v.x);
    let s1 = s.set_mac(1, v.x);
    lemma_result_writes_agree(r, s, 1, v.x, lm, true);
    let r2 = r1.limit_ir(1, v.x, lm, true);
    let s2 = s1.limit_ir(1, v.x, lm, true);
    lemma_result_writes_agree(r1, s1, 1, v.x, lm, true);
    let r3 = r2.set_mac(2, v.y);
    let s3 = s2.set_mac(2, v.y);
    lemma_result_writes_agree(r2, s2, 2, v.y, lm, true);
    let r4 = r3.limit_ir(2, v.y, lm, true);
    let s4 = s3.limit_ir(2, v.y, lm, true);
    lemma_result_writes_agree(r3, s3, 2, v.y, lm, true);
    let r5 = r4.set_mac(3, v.z);
    let s5 = s4.set_mac(3, v.z);
    lemma_result_writes_agree(r4, s4, 3, v.z, lm, true);
    lemma_result_writes_agree(r5, s5, 3, v.z, lm, true);
    let r6 = r5.limit_ir(3, v.z, lm, true);
    let s6 = s5.limit_ir(3, v.z, lm, true);
    assert(r6 == r.set_vector_result(v, lm));
    assert(s6 == s.set_vector_result(v, lm));
    assert(r6.mac(1) == s6.mac(1) && r6.mac(2) == s6.mac(2) && r6.mac(3) == s6.mac(3));
    assert(r6.ir(1) == s6.ir(1) && r6.ir(2) == s6.ir(2) && r6.ir(3) == s6.ir(3));
}

/// The far-colour interpolation gives the same values, MAC1-3 and IR1-3 on
/// agreeing register sets.
proof fn lemma_far_color_agrees(r: GteRegs, s: GteRegs, base: V3, sf: bool, lm: bool)
    requires
        colour_inputs_agree(r, s),
    ensures
        r.interpolate_far_color(base, sf, lm).1 == s.interpolate_far_color(base, sf, lm).1,
        colour_inputs_agree(r.interpolate_far_color(base, sf, lm).0, s.interpolate_far_color(base, sf, lm).0),
        forall|i: int| 1 <= i <= 3 ==> #[trigger] r.interpolate_far_color(base, sf, lm).0.mac(i) == s.interpolate_far_color(base, sf, lm).0.mac(i),
        forall|i: int| 1 <= i <= 3 ==> #[trigger] r.interpolate_far_color(base, sf, lm).0.ir(i) == s.interpolate_far_color(base, sf, lm).0.ir(i),
{
    lemma_channel_agrees(r, s, 1, base.x, sf);
    let (r1, x) = r.interpolate_channel(1, base.x, sf);
    let (s1, _x) = s.interpolate_channel(1, base.x, sf);
    lemma_channel_agrees(r1, s1, 2, base.y, sf);
    let (r2, y) = r1.interpolate_channel(2, base.y, sf);
    let (s2, _y) = s1.interpolate_channel(2, base.y, sf);
    lemma_channel_agrees(r2, s2, 3, base.z, sf);
    let (r3, z) = r2.interpolate_channel(3, base.z, sf);
    let (s3, _z) = s2.interpolate_channel(3, base.z, sf);
    lemma_vector_result_agrees(r3, s3, V3 { x, y, z }, lm);
}

/// Pushing a colour writes the colour FIFO and FLAG only.
proof fn lemma_push_frame(r: GteRegs, v: V3)
    requires
        r.data.len() == 32,
        r.control.len() == 32,
    ensures
        r.push_color_fifo(v).data.len() == 32,
        r.push_color_fifo(v).control.len() == 32,
        forall|i: int| 0 <= i < 32 && i != 20 && i != 21 && i != 22 ==> #[trigger] r.push_color_fifo(v).data[i] == r.data[i],
        forall|i: int| 0 <= i < 32 && i != 31 ==> #[trigger] r.push_color_fifo(v).control[i] == r.control[i],
{
    lemma_flag_frame(r, rgb_sat_flag(0));
    let (r1, _a) = r.limit_color(0, v.x >> 4i64);
    lemma_flag_frame(r1, rgb_sat_flag(1));
    let (r2, _b) = r1.limit_color(1, v.y >> 4i64);
    lemma_flag_frame(r2, rgb_sat_flag(2));
}

/// Pushing the same colour on agreeing register sets gives the same newest
/// FIFO entry.
proof fn lemma_push_agrees(r: GteRegs, s: GteRegs, v: V3)
    requires
        colour_inputs_agree(r, s),
    ensures
        r.push_color_fifo(v).data[22] == s.push_color_fifo(v).data[22],
{
    lemma_flag_frame(r, rgb_sat_flag(0));
    lemma_flag_frame(s, rgb_sat_flag(0));
    let (r1, _a) = r.limit_color(0, v.x >> 4i64);
    let (s1, _a2) = s.limit_color(0, v.x >> 4i64);
    lemma_flag_frame(r1, rgb_sat_flag(1));
    lemma_flag_frame(s1, rgb_sat_flag(1));
    let (r2, _b) = r1.limit_color(1, v.y >> 4i64);
    let (s2, _b2) = s1.limit_color(1, v.y >> 4i64);
    lemma_flag_frame(r2, rgb_sat_flag(2));
    lemma_flag_frame(s2, rgb_sat_flag(2));
}

/// NCDS lights the normal and depth-cues the colour-multiplied result toward
/// the far colour by IR0: the colour it pushes, and its MAC1-3 and IR1-3,
/// are those of NCS (the lighting alone) followed by DCPL (colour times IR,
/// depth-cued), with the same shift and limit bits.
pub proof fn lemma_ncds_is_ncs_then_dcpl(g: GteRegs, ncds: u32, ncs: u32, dcpl: u32)
    requires
        g.wf(),
        ncds & 0x3f == FN_NCDS,
        ncs & 0x3f == FN_NCS,
        dcpl & 0x3f == FN_DCPL,
        sf_spec(ncds) == sf_spec(ncs) && sf_spec(ncs) == sf_spec(dcpl),
        lm_spec(ncds) == lm_spec(ncs) && lm_spec(ncs) == lm_spec(dcpl),
    ensures
        g.execute(ncds).data[22] == g.execute(ncs).execute(dcpl).data[22],
        forall|i: int| 1 <= i <= 3 ==> #[trigger] g.execute(ncds).mac(i) == g.execute(ncs).execute(dcpl).mac(i),
        forall|i: int| 1 <= i <= 3 ==> #[trigger] g.execute(ncds).ir(i) == g.execute(ncs).execute(dcpl).ir(i),
{
    let sf = sf_spec(ncds);
    let lm = lm_spec(ncds);
    let r = GteRegs { data: g.data, control: g.control.update(31, 0) };
    let lit = r.light_source_matrix(0, sf, lm).0.light_color_matrix(sf, lm);
    let r2 = lit.0;
    assert(r2.data.len() == 32 && r2.control.len() == 32) by {
        lemma_light_stage_frame(r, sf, lm);
    }
    let n1 = r2.push_color_fifo(lit.1);
    lemma_execute_ncs(g, ncs);
    lemma_execute_ncds(g, ncds);
    lemma_push_frame(r2, lit.1);
    let s = GteRegs { data: n1.data, control: n1.control.update(31, 0) };
    lemma_execute_dcpl(n1, dcpl);
    assert(colour_inputs_agree(r2, s)) by {
        assert(n1.data[6] == r2.data[6]);
        assert(n1.data[8] == r2.data[8] && n1.data[9] == r2.data[9]);
        assert(n1.data[10] == r2.data[10] && n1.data[11] == r2.data[11]);
        assert(n1.control[21] == r2.control[21] && n1.control[22] == r2.control[22]);
        assert(n1.control[23] == r2.control[23]);
    }
    lemma_product_agrees(r2, s);
    let (r3, base) = r2.primary_color_product();
    let (s3, _base) = s.primary_color_product();
    lemma_far_color_agrees(r3, s3, base, sf, lm);
    let (r4, v) = r3.interpolate_far_color(base, sf, lm);
    let (s4, _v) = s3.interpolate_far_color(base, sf, lm);
    lemma_push_agrees(r4, s4, v);
    lemma_push_frame(r4, v);
    lemma_push_frame(s4, v);
    let a = r4.push_color_fifo(v);
    let b = s4.push_color_fifo(v);
    assert(forall|i: int| 1 <= i <= 3 ==> #[trigger] a.mac(i) == r4.mac(i) && b.mac(i) == s4.mac(i));
    assert(forall|i: int| 1 <= i <= 3 ==> #[trigger] a.ir(i) == r4.ir(i) && b.ir(i) == s4.ir(i));
}

/// The lighting stages keep the register files' sizes.
proof fn lemma_light_stage_frame(r: GteRegs, sf: bool, lm: bool)
    requires
        r.data.len() == 32,
        r.control.len() == 32,
    ensures
        r.light_source_matrix(0, sf, lm).0.light_color_matrix(sf, lm).0.data.len() == 32,
        r.light_source_matrix(0, sf, lm).0.light_color_matrix(sf, lm).0.control.len() == 32,
{
}

/// What NCS does: the lighting stages, then the lit colour pushed.
proof fn lemma_execute_ncs(g: GteRegs, ncs: u32)
    requires
        ncs & 0x3f == FN_NCS,
    ensures
        ({
            let r = GteRegs { data: g.data, control: g.control.update(31, 0) };
            let lit = r.light_source_matrix(0, sf_spec(ncs), lm_spec(ncs)).0.light_color_matrix(sf_spec(ncs), lm_spec(ncs));
            g.execute(ncs) == lit.0.push_color_fifo(lit.1)
        }),
{
}

/// What NCDS does: the lighting stages, then the depth-cued colour stage.
proof fn lemma_execute_ncds(g: GteRegs, ncds: u32)
    requires
        ncds & 0x3f == FN_NCDS,
    ensures
        ({
            let sf = sf_spec(ncds);
            let lm = lm_spec(ncds);
            let r = GteRegs { data: g.data, control: g.control.update(31, 0) };
            let r2 = r.light_source_matrix(0, sf, lm).0.light_color_matrix(sf, lm).0;
            let (r3, base) = r2.primary_color_product();
            let (r4, v) = r3.interpolate_far_color(base, sf, lm);
            g.execute(ncds) == r4.push_color_fifo(v)
        }),
{
}

/// What DCPL does: the depth-cued colour stage.
proof fn lemma_execute_dcpl(g: GteRegs, dcpl: u32)
    requires
        dcpl & 0x3f == FN_DCPL,
    ensures
        ({
            let sf = sf_spec(dcpl);
            let lm = lm_spec(dcpl);
            let r = GteRegs { data: g.data, control: g.control.update(31, 0) };
            let (r3, base) = r.primary_color_product();
            let (r4, v) = r3.interpolate_far_color(base, sf, lm);
            g.execute(dcpl) == r4.push_color_fifo(v)
        }),
{
}

} // verus!
