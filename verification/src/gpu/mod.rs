//! The GPU: GP0 command parsing, VRAM transfers, rasterisation of
//! rectangles, triangles and lines, and the GP1 display control registers.
pub mod color;
pub mod draw;

use crate::bits::sign_extend11_spec;
use crate::{GPU_VRAM_HEIGHT, GPU_VRAM_PIXELS, GPU_VRAM_WIDTH};
use std::collections::VecDeque;
use vstd::prelude::*;

verus! {

broadcast use crate::bits::group_bits;

pub const GPUSTAT_READY_CMD: u32 = 0x0400_0000u32;
pub const GPUSTAT_READY_READ: u32 = 0x0800_0000u32;
pub const GPUSTAT_READY_DMA: u32 = 0x1000_0000u32;
pub const GPUSTAT_DISPLAY_DISABLED: u32 = 0x0080_0000u32;
pub const GPUSTAT_IRQ: u32 = 0x0100_0000u32;
pub const GPUSTAT_MASK_SET: u32 = 0x0800u32;
pub const GPUSTAT_MASK_CHECK: u32 = 0x1000u32;

/// What the GP0 port is in the middle of receiving.
#[derive(Debug, Clone)]
pub enum Gp0Packet {
    Idle,
    Collect { words: Vec<u32>, expected_words: usize },
    CpuToVram { x: u16, y: u16, width: u16, height: u16, words_remaining: usize, pixel_index: usize },
    Polyline { command: u32, words: Vec<u32>, gouraud: bool },
}

#[derive(Debug, Clone)]
pub struct Gpu {
    pub vram: Vec<u16>,
    pub status: u32,
    pub read_response: u32,
    pub packet: Gp0Packet,
    pub vram_read: VecDeque<u32>,
    pub display_x: u16,
    pub display_y: u16,
    pub display_h_start: u16,
    pub display_h_end: u16,
    pub display_v_start: u16,
    pub display_v_end: u16,
    pub display_width: usize,
    pub display_height: usize,
    pub display_mode: u32,
    pub dma_direction: u8,
    pub draw_mode: u16,
    pub texture_window: u32,
    pub draw_area_x1: u16,
    pub draw_area_y1: u16,
    pub draw_area_x2: u16,
    pub draw_area_y2: u16,
    pub draw_offset_x: i16,
    pub draw_offset_y: i16,
    pub mask_set: bool,
    pub mask_check: bool,
}

/// The number of words a polygon command takes: the command, one vertex
/// word per vertex, a texture word per vertex when textured, and a colour
/// word for every vertex after the first when shaded.
pub open spec fn polygon_word_count_spec(command: u8) -> int {
    let vertices: int = if command & 0x08 != 0 { 4 } else { 3 };
    let textured: int = if command & 0x04 != 0 { 1 } else { 0 };
    let gouraud: int = if command & 0x10 != 0 { vertices - 1 } else { 0 };
    1 + vertices * (1 + textured) + gouraud
}

pub fn polygon_word_count(command: u8) -> (r: usize)
    ensures
        r == polygon_word_count_spec(command),
        4 <= r <= 12,
{
    let vertices: usize = if (command & 0x08) != 0 { 4 } else { 3 };
    let textured: usize = if (command & 0x04) != 0 { 1 } else { 0 };
    let gouraud: usize = if (command & 0x10) != 0 { vertices - 1 } else { 0 };
    1 + vertices * (1 + textured) + gouraud
}

/// A rectangle command: the command, a vertex, a texture word when
/// textured, and a size word for the variable-size form.
pub open spec fn rectangle_word_count_spec(command: u8) -> int {
    2 + (if command & 0x04 != 0 { 1int } else { 0int }) + (if (command >> 3u8) & 0x03 == 0 { 1int } else { 0int })
}

pub fn rectangle_word_count(command: u8) -> (r: usize)
    ensures
        r == rectangle_word_count_spec(command),
        2 <= r <= 4,
{
    let textured: usize = if (command & 0x04) != 0 { 1 } else { 0 };
    let variable: usize = if ((command >> 3u8) & 0x03) == 0 { 1 } else { 0 };
    2 + textured + variable
}

/// A transfer width field: 0 means 1024, otherwise taken modulo 1024.
pub open spec fn copy_width_spec(wh: u32) -> u16 {
    (((wh % 0x1_0000) + 0x3ff) % 0x400 + 1) as u16
}

/// A transfer height field: 0 means 512, otherwise taken modulo 512.
pub open spec fn copy_height_spec(wh: u32) -> u16 {
    (((wh / 0x1_0000) + 0x1ff) % 0x200 + 1) as u16
}

pub fn copy_size(wh: u32) -> (r: (u16, u16))
    ensures
        r.0 == copy_width_spec(wh),
        r.1 == copy_height_spec(wh),
        1 <= r.0 <= 1024,
        1 <= r.1 <= 512,
{
    let width = (((wh % 0x1_0000) + 0x3ff) % 0x400 + 1) as u16;
    let height = (((wh / 0x1_0000) + 0x1ff) % 0x200 + 1) as u16;
    (width, height)
}

/// Reads an 11-bit two's-complement field.
pub fn sign_extend(value: u32, bits: u32) -> (r: i32)
    requires
        bits == 11,
        value < 0x800,
    ensures
        r == sign_extend11_spec(value),
        -0x400 <= r < 0x400,
{
    let shift = 32 - bits;
    assert(value < 0x800 ==> (((value << 21u32) as i32) >> 21i32) == sign_extend11_spec(value)) by (bit_vector);
    ((value << shift) as i32) >> (shift as i32)
}

/// The drawing offset as GP1(10h) reports it: two 11-bit fields.
pub open spec fn encode_draw_offset_spec(x: i16, y: i16) -> u32 {
    ((x as i32 as u32) & 0x07ff) | (((y as i32 as u32) & 0x07ff) << 11u32)
}

pub fn encode_draw_offset(x: i16, y: i16) -> (r: u32)
    ensures
        r == encode_draw_offset_spec(x, y),
{
    ((x as i32 as u32) & 0x07ff) | (((y as i32 as u32) & 0x07ff) << 11u32)
}

/// Setting the drawing offset with GP0(E5h) and reading it back with
/// GP1(10h) index 5 returns the 22 bits that were written.
pub proof fn lemma_draw_offset_round_trip(word: u32)
    ensures
        encode_draw_offset_spec(
            sign_extend11_spec(word & 0x07ff) as i16,
            sign_extend11_spec((word >> 11u32) & 0x07ff) as i16,
        ) == word & 0x3f_ffff,
{
    let a = word & 0x07ff;
    let b = (word >> 11u32) & 0x07ff;
    let x = sign_extend11_spec(a) as i16;
    let y = sign_extend11_spec(b) as i16;
    assert(a < 0x800 && b < 0x800);
    assert(a < 0x800 ==> ((sign_extend11_spec(a) as i16) as i32 as u32) & 0x07ff == a) by (bit_vector)
        requires a < 0x800;
    assert(b < 0x800 ==> ((sign_extend11_spec(b) as i16) as i32 as u32) & 0x07ff == b) by (bit_vector)
        requires b < 0x800;
    assert((word & 0x07ff) | (((word >> 11u32) & 0x07ff) << 11u32) == word & 0x3f_ffff) by (bit_vector);
}

/// A point of a primitive after the drawing offset: position, texture
/// coordinates and 24-bit colour.
#[derive(Debug, Clone, Copy)]
pub struct Vertex {
    pub x: i32,
    pub y: i32,
    pub u: i32,
    pub v: i32,
    pub color: u32,
}

/// Twice the signed area of the triangle (a, b, p).
pub open spec fn edge_spec(a: Vertex, b: Vertex, x: int, y: int) -> int {
    (b.x - a.x) * (y - a.y) - (b.y - a.y) * (x - a.x)
}

/// Coordinates that fit the rasteriser's 64-bit edge arithmetic.
pub open spec fn coord_ok(v: int) -> bool {
    -0x10_0000 <= v <= 0x10_0000
}

pub fn edge(a: Vertex, b: Vertex, x: i32, y: i32) -> (r: i64)
    requires
        coord_ok(a.x as int) && coord_ok(a.y as int) && coord_ok(b.x as int) && coord_ok(b.y as int),
        coord_ok(x as int) && coord_ok(y as int),
    ensures
        r == edge_spec(a, b, x as int, y as int),
{
    proof {
        crate::bits::lemma_mul_bounds((b.x - a.x) as int, (y - a.y) as int, 0x20_0000, 0x20_0000);
        crate::bits::lemma_mul_bounds((b.y - a.y) as int, (x - a.x) as int, 0x20_0000, 0x20_0000);
    }
    ((b.x - a.x) as i64) * ((y - a.y) as i64) - ((b.y - a.y) as i64) * ((x - a.x) as i64)
}

pub open spec fn max3(a: int, b: int, c: int) -> int {
    if a >= b && a >= c { a } else if b >= c { b } else { c }
}

pub open spec fn min3(a: int, b: int, c: int) -> int {
    if a <= b && a <= c { a } else if b <= c { b } else { c }
}

/// The spread of three coordinates.
pub fn max_vertex_delta(values: [i32; 3]) -> (r: i32)
    requires
        coord_ok(values[0] as int) && coord_ok(values[1] as int) && coord_ok(values[2] as int),
    ensures
        r == max3(values[0] as int, values[1] as int, values[2] as int) - min3(values[0] as int, values[1] as int, values[2] as int),
{
    let mut min = values[0];
    let mut max = values[0];
    if values[1] < min { min = values[1]; }
    if values[1] > max { max = values[1]; }
    if values[2] < min { min = values[2]; }
    if values[2] > max { max = values[2]; }
    max - min
}

} // verus!

verus! {

/// The horizontal display size for a display mode and horizontal range.
pub open spec fn display_width_spec(h_start: u16, h_end: u16, mode: u32) -> usize {
    let mode_width: int = if mode & 0x40 != 0 {
        368
    } else if mode & 3 == 0 {
        256
    } else if mode & 3 == 1 {
        320
    } else if mode & 3 == 2 {
        512
    } else {
        640
    };
    let cycles_per_pixel: int = if mode_width == 256 {
        10
    } else if mode_width == 320 {
        8
    } else if mode_width == 368 {
        7
    } else if mode_width == 512 {
        5
    } else {
        4
    };
    let range: int = if h_end >= h_start { h_end - h_start } else { 0 };
    if range == 0 {
        mode_width as usize
    } else {
        let w = ((range / cycles_per_pixel) + 2) as usize & !3usize;
        if w < 1 { 1 } else if w > 640 { 640 } else { w }
    }
}

/// The vertical display size for a display mode and vertical range.
pub open spec fn display_height_spec(v_start: u16, v_end: u16, mode: u32) -> usize {
    let mode_height: int = if mode & 0x20 != 0 && mode & 0x04 != 0 { 480 } else { 240 };
    let range: int = if v_end >= v_start { v_end - v_start } else { 0 };
    if range == 0 {
        mode_height as usize
    } else if range > 480 {
        480
    } else {
        range as usize
    }
}

/// GPUSTAT bits 13-22 after GP1(08h): the display mode fields, and bit 13
/// set unless the display is interlaced.
pub open spec fn display_mode_status_spec(status: u32, mode: u32) -> u32 {
    let s = (status & !0x0075_c000u32) | (((mode & 0x03) << 17u32) | (((mode >> 2u32) & 1) << 19u32) | (((mode
        >> 3u32) & 1) << 20u32) | (((mode >> 4u32) & 1) << 21u32) | (((mode >> 5u32) & 1) << 22u32) | (((mode
        >> 6u32) & 1) << 16u32) | (((mode >> 7u32) & 1) << 14u32));
    if mode & 0x20 == 0 {
        s | 0x2000
    } else {
        s & !0x2000u32
    }
}

/// GPUSTAT bits 0-10 and 15 mirror the texture page register.
pub open spec fn draw_mode_status_spec(status: u32, draw_mode: u16) -> u32 {
    ((status & !0x0000_87ffu32) | ((draw_mode as u32) & 0x07ff)) | ((((draw_mode >> 11u16) & 1) as u32) << 15u32)
}

/// GPUSTAT bits 11 and 12 mirror the mask settings.
pub open spec fn mask_status_spec(status: u32, mask_set: bool, mask_check: bool) -> u32 {
    let s = status & !(GPUSTAT_MASK_SET | GPUSTAT_MASK_CHECK);
    let s1 = if mask_set { s | GPUSTAT_MASK_SET } else { s };
    if mask_check { s1 | GPUSTAT_MASK_CHECK } else { s1 }
}

impl Gp0Packet {
    pub open spec fn wf(&self) -> bool {
        match *self {
            Gp0Packet::Idle => true,
            Gp0Packet::Collect { words, expected_words } => {
                &&& 1 <= words@.len() < expected_words <= 16
                &&& expected_words == gp0_packet_words((words@[0] >> 24u32) as u8)
            },
            Gp0Packet::CpuToVram { x, y, width, height, words_remaining, pixel_index } => {
                &&& x < 1024 && y < 512
                &&& 1 <= width <= 1024 && 1 <= height <= 512
                &&& words_remaining >= 1
                &&& pixel_index + 2 * words_remaining <= 0x8_0001
            },
            Gp0Packet::Polyline { command, words, gouraud } => true,
        }
    }
}

/// The VRAM index of a pixel.
pub open spec fn vram_index(x: int, y: int) -> int {
    y * 1024 + x
}

/// A read of GPUREAD: the word `r` it gives and the GPU after it.
pub open spec fn gp0_read(o: Gpu, n: Gpu, r: u32) -> bool {
    &&& (o.vram_read@.len() > 0 ==> r == o.vram_read@[0] && n == (Gpu {
        read_response: r,
        vram_read: n.vram_read,
        ..o
    }) && n.vram_read@ == o.vram_read@.drop_first())
    &&& (o.vram_read@.len() == 0 ==> r == o.read_response && n == o)
}

impl Gpu {
    pub open spec fn wf(&self) -> bool {
        &&& self.vram@.len() == GPU_VRAM_PIXELS
        &&& 1 <= self.display_width <= 640
        &&& 1 <= self.display_height <= 480
        &&& self.vram_read@.len() <= 0x4_0000
        &&& self.packet.wf()
    }

    /// Whether the pixel at VRAM index `i` lies inside the drawing area.
    pub open spec fn in_draw_area(&self, i: int) -> bool {
        let x = i % 1024;
        let y = i / 1024;
        &&& self.draw_area_x1 <= x <= self.draw_area_x2
        &&& self.draw_area_y1 <= y <= self.draw_area_y2
    }

    /// Every pixel outside the drawing area is as it was in `before`.
    pub open spec fn clipped_since(&self, before: Seq<u16>) -> bool {
        &&& self.vram@.len() == before.len()
        &&& forall|i: int| 0 <= i < before.len() && !self.in_draw_area(i) ==> #[trigger] self.vram@[i] == before[i]
    }

    /// The state after GP1(00h): every register at its power-on value,
    /// VRAM cleared and no transfer in progress.
    pub open spec fn is_reset(&self) -> bool {
        &&& self.vram@.len() == GPU_VRAM_PIXELS
        &&& forall|i: int| 0 <= i < GPU_VRAM_PIXELS ==> #[trigger] self.vram@[i] == 0
        &&& self.status == 0x1480_2000
        &&& self.read_response == 0
        &&& self.packet is Idle
        &&& self.vram_read@.len() == 0
        &&& self.display_x == 0 && self.display_y == 0
        &&& self.display_h_start == 0x200 && self.display_h_end == 0xc00
        &&& self.display_v_start == 0x10 && self.display_v_end == 0x100
        &&& self.display_width == 320 && self.display_height == 240
        &&& self.display_mode == 0 && self.dma_direction == 0
        &&& self.draw_mode == 0 && self.texture_window == 0
        &&& self.draw_area_x1 == 0 && self.draw_area_y1 == 0
        &&& self.draw_area_x2 == 1023 && self.draw_area_y2 == 511
        &&& self.draw_offset_x == 0 && self.draw_offset_y == 0
        &&& !self.mask_set && !self.mask_check
    }

    /// GPUSTAT as GP1 reads it: the stored bits plus the ready flags, the
    /// DMA request for the current direction, and the direction itself.
    pub open spec fn gp1_status_spec(&self) -> u32 {
        let s0 = self.status | GPUSTAT_READY_CMD | GPUSTAT_READY_DMA;
        let s1 = if self.vram_read@.len() > 0 { s0 | GPUSTAT_READY_READ } else { s0 };
        let request = if self.dma_direction == 1 {
            true
        } else if self.dma_direction == 2 {
            s1 & GPUSTAT_READY_DMA != 0
        } else if self.dma_direction == 3 {
            s1 & GPUSTAT_READY_READ != 0
        } else {
            false
        };
        let s2 = if request { s1 | 0x0200_0000 } else { s1 };
        s2 | ((self.dma_direction as u32) << 29u32)
    }

    /// GP1(10h): the register a selector reads back.
    pub open spec fn gp1_info_spec(&self, selector: u32) -> u32 {
        let s = selector & 0x0f;
        if s == 2 {
            self.texture_window
        } else if s == 3 {
            ((self.draw_area_y1 as u32) << 10u32) | self.draw_area_x1 as u32
        } else if s == 4 {
            ((self.draw_area_y2 as u32) << 10u32) | self.draw_area_x2 as u32
        } else if s == 5 {
            encode_draw_offset_spec(self.draw_offset_x, self.draw_offset_y)
        } else if s == 7 {
            2
        } else {
            self.read_response
        }
    }

    /// The visible frame: `display_height` rows of `display_width` pixels
    /// read from VRAM at the display origin, wrapping at the VRAM edges.
    pub open spec fn frame_pixel(&self, row: int, col: int) -> u16 {
        self.vram@[vram_index((self.display_x + col) % 1024, (self.display_y + row) % 512)]
    }

    pub fn new() -> (r: Self)
        ensures
            r.wf(),
            r.is_reset(),
    {
        let mut gpu = Gpu {
            vram: vec![0u16; GPU_VRAM_PIXELS],
            status: 0,
            read_response: 0,
            packet: Gp0Packet::Idle,
            vram_read: VecDeque::new(),
            display_x: 0,
            display_y: 0,
            display_h_start: 0x200,
            display_h_end: 0xc00,
            display_v_start: 0x10,
            display_v_end: 0x100,
            display_width: 320,
            display_height: 240,
            display_mode: 0,
            dma_direction: 0,
            draw_mode: 0,
            texture_window: 0,
            draw_area_x1: 0,
            draw_area_y1: 0,
            draw_area_x2: (GPU_VRAM_WIDTH - 1) as u16,
            draw_area_y2: (GPU_VRAM_HEIGHT - 1) as u16,
            draw_offset_x: 0,
            draw_offset_y: 0,
            mask_set: false,
            mask_check: false,
        };
        gpu.reset();
        gpu
    }

    /// GPUREAD: the next word of a pending VRAM read, else the latched response.
    pub fn read_gp0(&mut self) -> (r: u32)
        requires
            old(self).wf(),
        ensures
            final(self).wf(),
            gp0_read(*old(self), *final(self), r),
    {
        if self.vram_read.len() > 0 {
            match self.vram_read.pop_front() {
                Some(value) => {
                    self.read_response = value;
                },
                None => {},
            }
        }
        self.read_response
    }

    /// GPUSTAT.
    pub fn read_gp1(&self) -> (r: u32)
        ensures
            r == self.gp1_status_spec(),
    {
        let mut status = self.status | GPUSTAT_READY_CMD | GPUSTAT_READY_DMA;
        if self.vram_read.len() > 0 {
            status = status | GPUSTAT_READY_READ;
        }
        if self.dma_request(status) {
            status = status | 0x0200_0000;
        }
        status | ((self.dma_direction as u32) << 29u32)
    }

    fn dma_request(&self, status: u32) -> (r: bool)
        ensures
            r == if self.dma_direction == 1 {
                true
            } else if self.dma_direction == 2 {
                status & GPUSTAT_READY_DMA != 0
            } else if self.dma_direction == 3 {
                status & GPUSTAT_READY_READ != 0
            } else {
                false
            },
    {
        if self.dma_direction == 1 {
            true
        } else if self.dma_direction == 2 {
            (status & GPUSTAT_READY_DMA) != 0
        } else if self.dma_direction == 3 {
            (status & GPUSTAT_READY_READ) != 0
        } else {
            false
        }
    }

    fn gp1_info(&self, selector: u32) -> (r: u32)
        ensures
            r == self.gp1_info_spec(selector),
    {
        let s = selector & 0x0f;
        if s == 2 {
            self.texture_window
        } else if s == 3 {
            ((self.draw_area_y1 as u32) << 10u32) | self.draw_area_x1 as u32
        } else if s == 4 {
            ((self.draw_area_y2 as u32) << 10u32) | self.draw_area_x2 as u32
        } else if s == 5 {
            encode_draw_offset(self.draw_offset_x, self.draw_offset_y)
        } else if s == 7 {
            2
        } else {
            self.read_response
        }
    }

    /// GP1 display control.  00h resets, 01h cancels a GP0 packet, 02h
    /// acknowledges the interrupt, 03h enables or disables the display, 04h
    /// sets the DMA direction, 05h the display origin, 06h/07h the display
    /// ranges, 08h the display mode, and 10h-1Fh latch register info for GPUREAD.
    pub fn write_gp1(&mut self, word: u32)
        requires
            old(self).wf(),
        ensures
            final(self).wf(),
            gp1_written(*old(self), word, *final(self)),
    {
        proof {
            crate::bits::lemma_gpu_fields(word);
        }
        let command = (word >> 24u32) as u8;
        if command == 0x00 {
            self.reset();
        } else if command == 0x01 {
            self.packet = Gp0Packet::Idle;
        } else if command == 0x02 {
            self.status = self.status & !GPUSTAT_IRQ;
        } else if command == 0x03 {
            if (word & 1) != 0 {
                self.status = self.status | GPUSTAT_DISPLAY_DISABLED;
            } else {
                self.status = self.status & !GPUSTAT_DISPLAY_DISABLED;
            }
        } else if command == 0x04 {
            self.dma_direction = (word & 0x3) as u8;
        } else if command == 0x05 {
            self.display_x = (word & 0x3ff) as u16;
            self.display_y = ((word >> 10u32) & 0x1ff) as u16;
        } else if command == 0x06 {
            self.display_h_start = (word & 0x0fff) as u16;
            self.display_h_end = ((word >> 12u32) & 0x0fff) as u16;
            self.update_display_size();
        } else if command == 0x07 {
            self.display_v_start = (word & 0x03ff) as u16;
            self.display_v_end = ((word >> 10u32) & 0x03ff) as u16;
            self.update_display_size();
        } else if command == 0x08 {
            self.display_mode = word & 0xff;
            self.sync_display_mode_status();
            self.update_display_size();
        } else if 0x10 <= command && command <= 0x1f {
            self.read_response = self.gp1_info(word & 0x00ff_ffff);
        }
    }

    /// The visible frame as BGR555 pixels, row by row; all black while the
    /// display is disabled.
    pub fn display_frame(&self) -> (r: Vec<u16>)
        requires
            self.wf(),
        ensures
            r@.len() == self.display_width * self.display_height,
            forall|i: int| 0 <= i < r@.len() ==> #[trigger] r@[i] == if self.status & GPUSTAT_DISPLAY_DISABLED != 0 {
                0
            } else {
                self.frame_pixel(i / self.display_width as int, i % self.display_width as int)
            },
    {
        let width = self.display_width;
        let height = self.display_height;
        proof {
            crate::bits::lemma_mul_bounds(width as int, height as int, 640, 480);
        }
        let total = width * height;
        let mut out: Vec<u16> = vec![0u16; total];
        if (self.status & GPUSTAT_DISPLAY_DISABLED) != 0 {
            return out;
        }
        let mut i: usize = 0;
        while i < total
            invariant
                self.wf(),
                width == self.display_width,
                total == width * height,
                total <= 640 * 480,
                self.status & GPUSTAT_DISPLAY_DISABLED == 0,
                i <= total,
                out@.len() == total,
                forall|j: int| 0 <= j < i ==> #[trigger] out@[j] == self.frame_pixel(j / width as int, j % width as int),
            decreases total - i,
        {
            let row = i / width;
            let col = i % width;
            let sx = (self.display_x as usize + col) & (GPU_VRAM_WIDTH - 1);
            let sy = (self.display_y as usize + row) % GPU_VRAM_HEIGHT;
            out.set(i, self.vram[sy * GPU_VRAM_WIDTH + sx]);
            i += 1;
        }
        out
    }

    pub fn display_size(&self) -> (r: (usize, usize))
        ensures
            r == (self.display_width, self.display_height),
    {
        (self.display_width, self.display_height)
    }

    pub fn vram(&self) -> (r: &[u16])
        ensures
            r@ == self.vram@,
    {
        self.vram.as_slice()
    }

    fn update_display_size(&mut self)
        ensures
            *final(self) == (Gpu {
                display_width: display_width_spec(old(self).display_h_start, old(self).display_h_end, old(self).display_mode),
                display_height: display_height_spec(old(self).display_v_start, old(self).display_v_end, old(self).display_mode),
                ..*old(self)
            }),
            1 <= final(self).display_width <= 640,
            1 <= final(self).display_height <= 480,
    {
        let mode_width: usize = if (self.display_mode & 0x40) != 0 {
            368
        } else if (self.display_mode & 3) == 0 {
            256
        } else if (self.display_mode & 3) == 1 {
            320
        } else if (self.display_mode & 3) == 2 {
            512
        } else {
            640
        };
        let cycles_per_pixel: usize = if mode_width == 256 {
            10
        } else if mode_width == 320 {
            8
        } else if mode_width == 368 {
            7
        } else if mode_width == 512 {
            5
        } else {
            4
        };
        let range: usize = if self.display_h_end >= self.display_h_start {
            (self.display_h_end - self.display_h_start) as usize
        } else {
            0
        };
        self.display_width = if range == 0 {
            mode_width
        } else {
            let w = ((range / cycles_per_pixel) + 2) & !3usize;
            if w < 1 {
                1
            } else if w > 640 {
                640
            } else {
                w
            }
        };
        let mode_height: usize = if (self.display_mode & 0x20) != 0 && (self.display_mode & 0x04) != 0 {
            480
        } else {
            240
        };
        let range_height: usize = if self.display_v_end >= self.display_v_start {
            (self.display_v_end - self.display_v_start) as usize
        } else {
            0
        };
        self.display_height = if range_height == 0 {
            mode_height
        } else if range_height > 480 {
            480
        } else {
            range_height
        };
    }

    fn sync_draw_mode_status(&mut self)
        ensures
            *final(self) == (Gpu { status: draw_mode_status_spec(old(self).status, old(self).draw_mode), ..*old(self) }),
    {
        self.status = self.status & !0x0000_87ffu32;
        self.status = self.status | ((self.draw_mode as u32) & 0x07ff);
        self.status = self.status | ((((self.draw_mode >> 11u16) & 1) as u32) << 15u32);
    }

    fn sync_mask_status(&mut self)
        ensures
            *final(self) == (Gpu {
                status: mask_status_spec(old(self).status, old(self).mask_set, old(self).mask_check),
                ..*old(self)
            }),
    {
        self.status = self.status & !(GPUSTAT_MASK_SET | GPUSTAT_MASK_CHECK);
        if self.mask_set {
            self.status = self.status | GPUSTAT_MASK_SET;
        }
        if self.mask_check {
            self.status = self.status | GPUSTAT_MASK_CHECK;
        }
    }

    fn sync_display_mode_status(&mut self)
        ensures
            *final(self) == (Gpu { status: display_mode_status_spec(old(self).status, old(self).display_mode), ..*old(self) }),
    {
        let mode = self.display_mode;
        self.status = self.status & !0x0075_c000u32;
        self.status = self.status | (((mode & 0x03) << 17u32) | (((mode >> 2u32) & 1) << 19u32) | (((mode >> 3u32) & 1)
            << 20u32) | (((mode >> 4u32) & 1) << 21u32) | (((mode >> 5u32) & 1) << 22u32) | (((mode >> 6u32) & 1)
            << 16u32) | (((mode >> 7u32) & 1) << 14u32));
        if (mode & 0x20) == 0 {
            self.status = self.status | 0x2000;
        } else {
            self.status = self.status & !0x2000u32;
        }
    }

    fn reset(&mut self)
        requires
            old(self).vram@.len() == GPU_VRAM_PIXELS,
        ensures
            final(self).wf(),
            final(self).is_reset(),
    {
        let mut i: usize = 0;
        while i < GPU_VRAM_PIXELS
            invariant
                self.vram@.len() == GPU_VRAM_PIXELS,
                i <= GPU_VRAM_PIXELS,
                forall|j: int| 0 <= j < i ==> #[trigger] self.vram@[j] == 0,
            decreases GPU_VRAM_PIXELS - i,
        {
            self.vram.set(i, 0);
            i += 1;
        }
        self.status = 0x1480_2000;
        self.read_response = 0;
        self.packet = Gp0Packet::Idle;
        self.vram_read.clear();
        self.display_x = 0;
        self.display_y = 0;
        self.display_h_start = 0x200;
        self.display_h_end = 0xc00;
        self.display_v_start = 0x10;
        self.display_v_end = 0x100;
        self.display_width = 320;
        self.display_height = 240;
        self.display_mode = 0;
        self.dma_direction = 0;
        self.draw_mode = 0;
        self.texture_window = 0;
        self.draw_area_x1 = 0;
        self.draw_area_y1 = 0;
        self.draw_area_x2 = (GPU_VRAM_WIDTH - 1) as u16;
        self.draw_area_y2 = (GPU_VRAM_HEIGHT - 1) as u16;
        self.draw_offset_x = 0;
        self.draw_offset_y = 0;
        self.mask_set = false;
        self.mask_check = false;
        self.sync_draw_mode_status();
        self.sync_mask_status();
        self.sync_display_mode_status();
        assert(draw_mode_status_spec(0x1480_2000, 0) == 0x1480_2000 && mask_status_spec(0x1480_2000, false, false)
            == 0x1480_2000 && display_mode_status_spec(0x1480_2000, 0) == 0x1480_2000) by (bit_vector);
    }
}

impl Default for Gpu {
    fn default() -> (r: Self)
        ensures
            r.wf(),
            r.is_reset(),
    {
        Self::new()
    }
}

} // verus!

verus! {

/// How many words a GP0 command collects before it executes (one word
/// commands and register writes count zero; polylines are open-ended and
/// count zero here too).
pub open spec fn gp0_packet_words(command: u8) -> int {
    if command == 0x02 {
        3
    } else if command == 0x1f || (0xe0 <= command <= 0xff) || command < 0x20 {
        0
    } else if command < 0x40 {
        polygon_word_count_spec(command)
    } else if command < 0x60 {
        if command & 0x08 != 0 { 0 } else if command & 0x10 != 0 { 4 } else { 3 }
    } else if command < 0x80 {
        rectangle_word_count_spec(command)
    } else if command < 0xa0 {
        4
    } else {
        3
    }
}

/// The effect of a GP0 command word that acts at once: the interrupt
/// request, the texture page, texture window, drawing area corners, drawing
/// offset and mask settings.  Other first words leave the registers alone.
pub open spec fn gp0_register_effect(o: Gpu, word: u32) -> Gpu {
    let c = (word >> 24u32) as u8;
    if c == 0x1f {
        Gpu { status: o.status | GPUSTAT_IRQ, ..o }
    } else if c == 0xe1 {
        let m = (word & 0x3fff) as u16;
        Gpu { draw_mode: m, status: draw_mode_status_spec(o.status, m), ..o }
    } else if c == 0xe2 {
        Gpu { texture_window: word & 0x000f_ffff, ..o }
    } else if c == 0xe3 {
        Gpu { draw_area_x1: (word & 0x03ff) as u16, draw_area_y1: ((word >> 10u32) & 0x01ff) as u16, ..o }
    } else if c == 0xe4 {
        Gpu { draw_area_x2: (word & 0x03ff) as u16, draw_area_y2: ((word >> 10u32) & 0x01ff) as u16, ..o }
    } else if c == 0xe5 {
        Gpu {
            draw_offset_x: sign_extend11_spec(word & 0x07ff) as i16,
            draw_offset_y: sign_extend11_spec((word >> 11u32) & 0x07ff) as i16,
            ..o
        }
    } else if c == 0xe6 {
        Gpu {
            mask_set: word & 1 != 0,
            mask_check: word & 2 != 0,
            status: mask_status_spec(o.status, word & 1 != 0, word & 2 != 0),
            ..o
        }
    } else {
        o
    }
}

/// The first word of a command: a packet that collects more words starts,
/// a polyline starts, or the word acts at once.
pub open spec fn gp0_start_spec(o: Gpu, word: u32, n: Gpu) -> bool {
    let c = (word >> 24u32) as u8;
    let count = gp0_packet_words(c);
    if 0x40 <= c < 0x60 && c & 0x08 != 0 {
        &&& n.packet matches Gp0Packet::Polyline { command, words, gouraud } && command == word && words@.len() == 0
            && gouraud == (c & 0x10 != 0)
        &&& n == Gpu { packet: n.packet, ..o }
    } else if count >= 2 {
        &&& n.packet matches Gp0Packet::Collect { words, expected_words } && words@ == seq![word] && expected_words
            == count
        &&& n == Gpu { packet: n.packet, ..o }
    } else {
        n == gp0_register_effect(o, word)
    }
}

/// The pixel words a VRAM-to-CPU read queues: pixels of the rectangle in
/// row order, two to a word, the first in the low half.
pub open spec fn vram_read_queued(vram: Seq<u16>, xy: u32, wh: u32, queue: Seq<u32>) -> bool {
    let x = (xy & 0x03ff) as int;
    let y = ((xy >> 16u32) & 0x01ff) as int;
    let w = copy_width_spec(wh) as int;
    let n = w * copy_height_spec(wh) as int;
    &&& queue.len() == (n + 1) / 2
    &&& forall|k: int| 0 <= k < (n + 1) / 2 ==> #[trigger] queue[k] == if 2 * k + 1 < n {
        (vram[transfer_index(x, y, w, 2 * k)] as u32) | ((vram[transfer_index(x, y, w, 2 * k + 1)] as u32) << 16u32)
    } else {
        vram[transfer_index(x, y, w, 2 * k)] as u32
    }
}

/// What a complete GP0 command packet does, from `o` to `n`: fills, draws
/// and copies change VRAM alone; a CPU-to-VRAM transfer starts taking pixel
/// words; a VRAM-to-CPU transfer queues the rectangle's pixels.
pub open spec fn packet_effect(o: Gpu, words: Seq<u32>, n: Gpu) -> bool {
    let command = (words[0] >> 24u32) as u8;
    if command == 0x02 {
        &&& n == Gpu { vram: n.vram, ..o }
        &&& n.vram@.len() == o.vram@.len()
        &&& forall|i: int|
            0 <= i < 0x8_0000 ==> #[trigger] n.vram@[i] == if draw::fill_covers(words[1], words[2], i) {
                color::bgr555_spec(words[0] & 0x00ff_ffff)
            } else {
                o.vram@[i]
            }
    } else if 0x20 <= command < 0x40 {
        &&& n == Gpu { vram: n.vram, ..o }
        &&& n.vram@ == draw::render_polygon_spec(o.draw_regs(), o.vram@, words)
    } else if 0x40 <= command < 0x60 {
        &&& n == Gpu { vram: n.vram, ..o }
        &&& n.vram@ == draw::render_line_packet_spec(o.draw_regs(), o.vram@, words)
    } else if 0x60 <= command < 0x80 {
        &&& n == Gpu { vram: n.vram, ..o }
        &&& n.vram@ == draw::render_rectangle_spec(o.draw_regs(), o.vram@, words)
    } else if 0x80 <= command < 0xa0 {
        &&& n == Gpu { vram: n.vram, ..o }
        &&& draw::copied_so_far(
            o.vram@,
            n.vram@,
            o.mask_set,
            o.mask_check,
            (words[1] & 0x03ff) as int,
            ((words[1] >> 16u32) & 0x01ff) as int,
            (words[2] & 0x03ff) as int,
            ((words[2] >> 16u32) & 0x01ff) as int,
            copy_width_spec(words[3]) as int,
            copy_width_spec(words[3]) * copy_height_spec(words[3]),
        )
    } else if 0xa0 <= command < 0xc0 {
        let (w, h) = (copy_width_spec(words[2]), copy_height_spec(words[2]));
        n == Gpu {
            packet: Gp0Packet::CpuToVram {
                x: (words[1] & 0x03ff) as u16,
                y: ((words[1] >> 16u32) & 0x01ff) as u16,
                width: w,
                height: h,
                words_remaining: ((w * h + 1) / 2) as usize,
                pixel_index: 0,
            },
            ..o
        }
    } else if 0xc0 <= command < 0xe0 {
        &&& n == Gpu { vram_read: n.vram_read, ..o }
        &&& vram_read_queued(o.vram@, words[1], words[2], n.vram_read@)
    } else {
        n == o
    }
}

/// A pixel written by a VRAM transfer: refused over a masked pixel when mask
/// checking is on, and given the mask bit when mask setting is on.
pub open spec fn transfer_pixel_spec(vram: Seq<u16>, mask_set: bool, mask_check: bool, index: int, pixel: u16) -> Seq<u16> {
    if mask_check && vram[index] & 0x8000 != 0 {
        vram
    } else {
        vram.update(index, if mask_set { pixel | 0x8000 } else { pixel })
    }
}

/// The VRAM index of pixel `index` of a w-pixel-wide transfer rectangle at (x, y).
pub open spec fn transfer_index(x: int, y: int, w: int, index: int) -> int {
    vram_index((x + index % w) % 1024, (y + index / w) % 512)
}

/// What a GP1 word does to the GPU.
pub open spec fn gp1_written(o: Gpu, word: u32, n: Gpu) -> bool {
    &&& (({
        let c = word >> 24u32;
        if c == 0 {
            n.is_reset()
        } else if c == 1 {
            n == (Gpu { packet: Gp0Packet::Idle, ..o })
        } else if c == 2 {
            n == (Gpu { status: o.status & !GPUSTAT_IRQ, ..o })
        } else if c == 3 {
            n == (Gpu {
                status: if word & 1 != 0 {
                    o.status | GPUSTAT_DISPLAY_DISABLED
                } else {
                    o.status & !GPUSTAT_DISPLAY_DISABLED
                },
                ..o
            })
        } else if c == 4 {
            n == (Gpu { dma_direction: (word & 3) as u8, ..o })
        } else if c == 5 {
            n == (Gpu {
                display_x: (word & 0x3ff) as u16,
                display_y: ((word >> 10u32) & 0x1ff) as u16,
                ..o
            })
        } else if c == 6 {
            let hs = (word & 0x0fff) as u16;
            let he = ((word >> 12u32) & 0x0fff) as u16;
            n == (Gpu {
                display_h_start: hs,
                display_h_end: he,
                display_width: display_width_spec(hs, he, o.display_mode),
                display_height: display_height_spec(o.display_v_start, o.display_v_end, o.display_mode),
                ..o
            })
        } else if c == 7 {
            let vs = (word & 0x03ff) as u16;
            let ve = ((word >> 10u32) & 0x03ff) as u16;
            n == (Gpu {
                display_v_start: vs,
                display_v_end: ve,
                display_width: display_width_spec(o.display_h_start, o.display_h_end, o.display_mode),
                display_height: display_height_spec(vs, ve, o.display_mode),
                ..o
            })
        } else if c == 8 {
            let m = word & 0xff;
            n == (Gpu {
                display_mode: m,
                status: display_mode_status_spec(o.status, m),
                display_width: display_width_spec(o.display_h_start, o.display_h_end, m),
                display_height: display_height_spec(o.display_v_start, o.display_v_end, m),
                ..o
            })
        } else if 0x10 <= c <= 0x1f {
            n == (Gpu { read_response: o.gp1_info_spec(word & 0x00ff_ffff), ..o })
        } else {
            n == o
        }
    }))
}

/// What a GP0 word does to the GPU.
pub open spec fn gp0_written(o: Gpu, word: u32, n: Gpu) -> bool {
    &&& (o.packet is Idle ==> gp0_start_spec(o, word, n))
    &&& (o.packet matches Gp0Packet::Collect { words, expected_words } ==> if words@.len() + 1
        == expected_words {
        packet_effect(Gpu { packet: Gp0Packet::Idle, ..o }, words@.push(word), n)
    } else {
        &&& n.packet matches Gp0Packet::Collect { words: w2, expected_words: e2 } && w2@
            == words@.push(word) && e2 == expected_words
        &&& n == (Gpu { packet: n.packet, ..o })
    })
    &&& (o.packet matches Gp0Packet::CpuToVram { x, y, width, height, words_remaining, pixel_index } ==> {
        &&& n.vram@ == upload_word_spec(
            o.vram@,
            o.mask_set,
            o.mask_check,
            x,
            y,
            width,
            height,
            pixel_index,
            word,
        )
        &&& words_remaining > 1 ==> n.packet == (Gp0Packet::CpuToVram {
            x,
            y,
            width,
            height,
            words_remaining: (words_remaining - 1) as usize,
            pixel_index: (pixel_index + 2) as usize,
        })
        &&& words_remaining <= 1 ==> n.packet is Idle
        &&& n == (Gpu { vram: n.vram, packet: n.packet, ..o })
    })
    &&& (o.packet matches Gp0Packet::Polyline { command, words, gouraud } ==> if word & 0xf000_f000
        == 0x5000_5000 {
        &&& n.packet is Idle
        &&& n.vram@ == draw::polyline_draw(
            o.draw_regs(),
            o.vram@,
            command,
            words@,
            gouraud,
            draw::polyline_len(words@, gouraud),
        )
        &&& n.clipped_since(o.vram@)
        &&& n == (Gpu { vram: n.vram, packet: Gp0Packet::Idle, ..o })
    } else {
        &&& n.packet matches Gp0Packet::Polyline { command: c2, words: w2, gouraud: g2 } && c2
            == command && g2 == gouraud && w2@ == words@.push(word)
        &&& n == (Gpu { packet: n.packet, ..o })
    })
}

impl Gpu {
    /// GP0: a command word, a parameter of the command in progress, a word of
    /// pixel data, or a polyline vertex.
    pub fn write_gp0(&mut self, word: u32)
        requires
            old(self).wf(),
        ensures
            final(self).wf(),
            gp0_written(*old(self), word, *final(self)),
    {
        let mut packet = Gp0Packet::Idle;
        std::mem::swap(&mut packet, &mut self.packet);
        match packet {
            Gp0Packet::Idle => {
                self.start_gp0(word);
            },
            Gp0Packet::Collect { mut words, expected_words } => {
                words.push(word);
                if words.len() == expected_words {
                    self.execute_packet(&words);
                } else {
                    self.packet = Gp0Packet::Collect { words, expected_words };
                }
            },
            Gp0Packet::CpuToVram { x, y, width, height, words_remaining, pixel_index } => {
                self.write_vram_upload_word(x, y, width, height, pixel_index, word);
                let pixel_index = pixel_index + 2;
                let words_remaining = words_remaining - 1;
                if words_remaining != 0 {
                    self.packet = Gp0Packet::CpuToVram { x, y, width, height, words_remaining, pixel_index };
                }
            },
            Gp0Packet::Polyline { command, mut words, gouraud } => {
                if (word & 0xf000_f000) == 0x5000_5000 {
                    self.render_polyline(command, &words, gouraud);
                } else {
                    words.push(word);
                    self.packet = Gp0Packet::Polyline { command, words, gouraud };
                }
            },
        }
    }

    fn start_gp0(&mut self, word: u32)
        requires
            old(self).wf(),
            old(self).packet is Idle,
        ensures
            final(self).wf(),
            gp0_start_spec(*old(self), word, *final(self)),
    {
        proof {
            crate::bits::lemma_gpu_fields(word);
        }
        let command = (word >> 24u32) as u8;
        if command == 0x1f {
            self.status = self.status | GPUSTAT_IRQ;
        } else if command == 0xe1 {
            self.set_draw_mode(word);
        } else if command == 0xe2 {
            self.texture_window = word & 0x000f_ffff;
        } else if command == 0xe3 {
            self.draw_area_x1 = (word & 0x03ff) as u16;
            self.draw_area_y1 = ((word >> 10u32) & 0x01ff) as u16;
        } else if command == 0xe4 {
            self.draw_area_x2 = (word & 0x03ff) as u16;
            self.draw_area_y2 = ((word >> 10u32) & 0x01ff) as u16;
        } else if command == 0xe5 {
            self.draw_offset_x = sign_extend(word & 0x07ff, 11) as i16;
            self.draw_offset_y = sign_extend((word >> 11u32) & 0x07ff, 11) as i16;
        } else if command == 0xe6 {
            self.mask_set = (word & 1) != 0;
            self.mask_check = (word & 2) != 0;
            self.sync_mask_status();
        } else if command == 0x02 {
            self.collect(word, 3);
        } else if command < 0x20 || command >= 0xe0 {
        } else if command < 0x40 {
            self.collect(word, polygon_word_count(command));
        } else if command < 0x60 {
            self.start_line(word);
        } else if command < 0x80 {
            self.collect(word, rectangle_word_count(command));
        } else if command < 0xa0 {
            self.collect(word, 4);
        } else {
            self.collect(word, 3);
        }
    }

    fn collect(&mut self, word: u32, expected_words: usize)
        requires
            old(self).wf(),
            old(self).packet is Idle,
            2 <= expected_words <= 16,
            expected_words == gp0_packet_words((word >> 24u32) as u8),
        ensures
            final(self).wf(),
            final(self).packet matches Gp0Packet::Collect { words, expected_words: e } && words@ == seq![word] && e
                == expected_words,
            *final(self) == (Gpu { packet: final(self).packet, ..*old(self) }),
    {
        let mut words: Vec<u32> = Vec::new();
        words.push(word);
        self.packet = Gp0Packet::Collect { words, expected_words };
    }

    fn start_line(&mut self, word: u32)
        requires
            old(self).wf(),
            old(self).packet is Idle,
            0x40 <= ((word >> 24u32) as u8) && ((word >> 24u32) as u8) < 0x60,
        ensures
            final(self).wf(),
            gp0_start_spec(*old(self), word, *final(self)),
    {
        proof {
            crate::bits::lemma_gpu_fields(word);
        }
        let command = (word >> 24u32) as u8;
        let gouraud = (command & 0x10) != 0;
        if (command & 0x08) != 0 {
            self.packet = Gp0Packet::Polyline { command: word, words: Vec::new(), gouraud };
        } else {
            let count: usize = if gouraud { 4 } else { 3 };
            self.collect(word, count);
        }
    }

    fn set_draw_mode(&mut self, word: u32)
        ensures
            *final(self) == (Gpu {
                draw_mode: (word & 0x3fff) as u16,
                status: draw_mode_status_spec(old(self).status, (word & 0x3fff) as u16),
                ..*old(self)
            }),
    {
        self.draw_mode = (word & 0x3fff) as u16;
        self.sync_draw_mode_status();
    }

    /// Runs a complete command packet.
    fn execute_packet(&mut self, words: &Vec<u32>)
        requires
            old(self).wf(),
            old(self).packet is Idle,
            2 <= words@.len() <= 16,
            words@.len() == gp0_packet_words((words@[0] >> 24u32) as u8),
        ensures
            final(self).wf(),
            packet_effect(*old(self), words@, *final(self)),
    {
        proof {
            crate::bits::lemma_gpu_fields(words@[0]);
        }
        let command = (words[0] >> 24u32) as u8;
        if command == 0x02 {
            self.fill_rect(words[0], words[1], words[2]);
        } else if 0x20 <= command && command < 0x40 {
            self.render_polygon(words);
        } else if 0x40 <= command && command < 0x60 {
            self.render_line_packet(words);
        } else if 0x60 <= command && command < 0x80 {
            self.render_rectangle(words);
        } else if 0x80 <= command && command < 0xa0 {
            self.copy_vram_to_vram(words[1], words[2], words[3]);
        } else if 0xa0 <= command && command < 0xc0 {
            self.begin_cpu_to_vram(words[1], words[2]);
        } else if 0xc0 <= command && command < 0xe0 {
            self.prepare_vram_read(words[1], words[2]);
        }
    }

    fn begin_cpu_to_vram(&mut self, xy: u32, wh: u32)
        requires
            old(self).wf(),
            old(self).packet is Idle,
        ensures
            final(self).wf(),
            ({
                let (w, h) = (copy_width_spec(wh), copy_height_spec(wh));
                final(self).packet == (Gp0Packet::CpuToVram {
                    x: (xy & 0x03ff) as u16,
                    y: ((xy >> 16u32) & 0x01ff) as u16,
                    width: w,
                    height: h,
                    words_remaining: ((w * h + 1) / 2) as usize,
                    pixel_index: 0,
                })
            }),
            *final(self) == (Gpu { packet: final(self).packet, ..*old(self) }),
    {
        let x = (xy & 0x03ff) as u16;
        let y = ((xy >> 16u32) & 0x01ff) as u16;
        let (width, height) = copy_size(wh);
        proof {
            crate::bits::lemma_mul_bounds(width as int, height as int, 1024, 512);
            assert(width * height >= 1) by (nonlinear_arith)
                requires
                    width >= 1,
                    height >= 1,
            ;
        }
        let pixels = width as usize * height as usize;
        self.packet = Gp0Packet::CpuToVram {
            x,
            y,
            width,
            height,
            words_remaining: (pixels + 1) / 2,
            pixel_index: 0,
        };
    }

    /// Writes the two pixels of one upload word, stopping at the end of the rectangle.
    #[verifier::spinoff_prover]
    fn write_vram_upload_word(&mut self, x: u16, y: u16, width: u16, height: u16, pixel_index: usize, word: u32)
        requires
            old(self).wf(),
            x < 1024 && y < 512,
            1 <= width <= 1024 && 1 <= height <= 512,
            pixel_index <= 0x8_0000,
        ensures
            final(self).wf(),
            final(self).vram@ == upload_word_spec(old(self).vram@, old(self).mask_set, old(self).mask_check, x, y, width, height, pixel_index, word),
            *final(self) == (Gpu { vram: final(self).vram, ..*old(self) }),
    {
        let w = width as usize;
        let h = height as usize;
        proof {
            crate::bits::lemma_mul_bounds(w as int, h as int, 1024, 512);
        }
        if pixel_index >= w * h {
            return;
        }
        let px = (x as usize + (pixel_index % w)) & (GPU_VRAM_WIDTH - 1);
        let py = (y as usize + (pixel_index / w)) % GPU_VRAM_HEIGHT;
        self.write_transfer_pixel(px, py, word as u16);
        if pixel_index + 1 >= w * h {
            return;
        }
        let px2 = (x as usize + ((pixel_index + 1) % w)) & (GPU_VRAM_WIDTH - 1);
        let py2 = (y as usize + ((pixel_index + 1) / w)) % GPU_VRAM_HEIGHT;
        self.write_transfer_pixel(px2, py2, (word >> 16u32) as u16);
    }

    fn write_transfer_pixel(&mut self, x: usize, y: usize, pixel: u16)
        requires
            old(self).wf(),
        ensures
            final(self).wf(),
            final(self).vram@ == transfer_pixel_spec(old(self).vram@, old(self).mask_set, old(self).mask_check, vram_index((x % 1024) as int, (y % 512) as int), pixel),
            *final(self) == (Gpu { vram: final(self).vram, ..*old(self) }),
    {
        let index = (y % GPU_VRAM_HEIGHT) * GPU_VRAM_WIDTH + (x & (GPU_VRAM_WIDTH - 1));
        if self.mask_check && (self.vram[index] & 0x8000) != 0 {
            return;
        }
        let value = if self.mask_set {
            pixel | 0x8000
        } else {
            pixel
        };
        self.vram.set(index, value);
    }

    fn read_vram_transfer_pixel(&self, x: usize, y: usize, width: usize, pixel_index: usize) -> (r: u16)
        requires
            self.wf(),
            x < 1024 && y < 512,
            1 <= width <= 1024,
            pixel_index <= 0x8_0000,
        ensures
            r == self.vram@[transfer_index(x as int, y as int, width as int, pixel_index as int)],
    {
        let px = (x + (pixel_index % width)) & (GPU_VRAM_WIDTH - 1);
        let py = (y + (pixel_index / width)) % GPU_VRAM_HEIGHT;
        self.vram[py * GPU_VRAM_WIDTH + px]
    }

    /// VRAM-to-CPU: queues the rectangle's pixels, two per word, for GPUREAD.
    fn prepare_vram_read(&mut self, xy: u32, wh: u32)
        requires
            old(self).wf(),
            old(self).packet is Idle,
        ensures
            final(self).wf(),
            vram_read_queued(old(self).vram@, xy, wh, final(self).vram_read@),
            *final(self) == (Gpu { vram_read: final(self).vram_read, ..*old(self) }),
    {
        let x = (xy & 0x03ff) as usize;
        let y = ((xy >> 16u32) & 0x01ff) as usize;
        let (width, height) = copy_size(wh);
        self.vram_read.clear();
        proof {
            crate::bits::lemma_mul_bounds(width as int, height as int, 1024, 512);
        }
        let pixels = width as usize * height as usize;
        let mut pixel_index: usize = 0;
        while pixel_index < pixels
            invariant
                self.wf(),
                *self == (Gpu { vram_read: self.vram_read, ..*old(self) }),
                x < 1024 && y < 512,
                1 <= width <= 1024,
                pixels == width * height,
                pixels <= 0x8_0000,
                pixel_index % 2 == 0,
                pixel_index <= pixels + 1,
                self.vram_read@.len() == pixel_index / 2,
                forall|k: int| 0 <= k < pixel_index / 2 ==> #[trigger] self.vram_read@[k] == if 2 * k + 1 < pixels {
                    (old(self).vram@[transfer_index(x as int, y as int, width as int, 2 * k)] as u32) | ((old(self).vram@[transfer_index(x as int, y as int, width as int, 2 * k + 1)] as u32) << 16u32)
                } else {
                    old(self).vram@[transfer_index(x as int, y as int, width as int, 2 * k)] as u32
                },
            decreases pixels + 1 - pixel_index,
        {
            let lo = self.read_vram_transfer_pixel(x, y, width as usize, pixel_index) as u32;
            let packed = if pixel_index + 1 < pixels {
                let hi = self.read_vram_transfer_pixel(x, y, width as usize, pixel_index + 1) as u32;
                lo | (hi << 16u32)
            } else {
                lo
            };
            self.vram_read.push_back(packed);
            pixel_index += 2;
        }
    }
}

/// VRAM after one word of a CPU-to-VRAM upload: its low and high halves go
/// to pixels `pixel_index` and `pixel_index + 1` of the rectangle, while
/// they lie inside it.
/// Two different offsets less than `m` apart stay different modulo `m`.
proof fn lemma_mod_distinct(c: int, a: int, b: int, m: int)
    requires
        m > 0,
        0 <= a < m,
        0 <= b < m,
        a != b,
        c >= 0,
    ensures
        (c + a) % m != (c + b) % m,
{
    vstd::arithmetic::div_mod::lemma_fundamental_div_mod(c + a, m);
    vstd::arithmetic::div_mod::lemma_fundamental_div_mod(c + b, m);
    let qa = (c + a) / m;
    let qb = (c + b) / m;
    if (c + a) % m == (c + b) % m {
        assert(a - b == m * (qa - qb)) by (nonlinear_arith)
            requires
                c + a == m * qa + (c + a) % m,
                c + b == m * qb + (c + b) % m,
                (c + a) % m == (c + b) % m,
        ;
        assert(false) by (nonlinear_arith)
            requires
                a - b == m * (qa - qb),
                -m < a - b < m,
                a != b,
                m > 0,
        ;
    }
}

/// Different pixels of a transfer rectangle that fits in VRAM land on
/// different VRAM pixels.
pub proof fn lemma_transfer_index_distinct(x: int, y: int, w: int, h: int, i: int, j: int)
    requires
        0 <= x < 1024,
        0 <= y < 512,
        1 <= w <= 1024,
        1 <= h <= 512,
        0 <= i < w * h,
        0 <= j < w * h,
        i != j,
    ensures
        transfer_index(x, y, w, i) != transfer_index(x, y, w, j),
{
    vstd::arithmetic::div_mod::lemma_fundamental_div_mod(i, w);
    vstd::arithmetic::div_mod::lemma_fundamental_div_mod(j, w);
    assert(0 <= i % w < w && 0 <= j % w < w);
    let qi = i / w;
    let qj = j / w;
    assert(0 <= qi < h) by (nonlinear_arith)
        requires
            i == w * qi + i % w,
            0 <= i % w < w,
            0 <= i < w * h,
            w >= 1,
    ;
    assert(0 <= qj < h) by (nonlinear_arith)
        requires
            j == w * qj + j % w,
            0 <= j % w < w,
            0 <= j < w * h,
            w >= 1,
    ;
    if i / w != j / w {
        lemma_mod_distinct(y, i / w, j / w, 512);
    } else {
        assert(i % w != j % w);
        lemma_mod_distinct(x, i % w, j % w, 1024);
    }
}

/// A word uploaded by a CPU-to-VRAM transfer and then read by a
/// VRAM-to-CPU copy of the same rectangle is queued for GPUREAD unchanged,
/// in the same place (mask bits neither set nor checked).
pub proof fn lemma_upload_then_copy_back(
    vram: Seq<u16>,
    xy: u32,
    wh: u32,
    k: int,
    word: u32,
    queue: Seq<u32>,
)
    requires
        vram.len() == 0x8_0000,
        0 <= k,
        2 * k + 1 < copy_width_spec(wh) * copy_height_spec(wh),
        vram_read_queued(
            upload_word_spec(
                vram,
                false,
                false,
                (xy & 0x03ff) as u16,
                ((xy >> 16u32) & 0x01ff) as u16,
                copy_width_spec(wh),
                copy_height_spec(wh),
                (2 * k) as usize,
                word,
            ),
            xy,
            wh,
            queue,
        ),
    ensures
        queue[k] == word,
{
    let x = (xy & 0x03ff) as u16;
    let y = ((xy >> 16u32) & 0x01ff) as u16;
    crate::bits::lemma_gpu_fields(xy);
    assert(x < 1024 && y < 512);
    lemma_upload_reads_back(vram, x, y, copy_width_spec(wh), copy_height_spec(wh), k, word);
    let n = copy_width_spec(wh) * copy_height_spec(wh);
    assert(k < (n + 1) / 2);
}

/// What CPU-to-VRAM writes, VRAM-to-CPU reads back: with mask bits neither
/// set nor checked, the two pixels of an uploaded word, read from the same
/// rectangle positions and packed the same way, give the word again.
pub proof fn lemma_upload_reads_back(vram: Seq<u16>, x: u16, y: u16, width: u16, height: u16, k: int, word: u32)
    requires
        vram.len() == 0x8_0000,
        x < 1024,
        y < 512,
        1 <= width <= 1024,
        1 <= height <= 512,
        0 <= k,
        2 * k + 1 < width * height,
    ensures
        ({
            let n = upload_word_spec(vram, false, false, x, y, width, height, (2 * k) as usize, word);
            let i0 = transfer_index(x as int, y as int, width as int, 2 * k);
            let i1 = transfer_index(x as int, y as int, width as int, 2 * k + 1);
            (n[i0] as u32) | ((n[i1] as u32) << 16u32) == word
        }),
{
    lemma_transfer_index_distinct(x as int, y as int, width as int, height as int, 2 * k, 2 * k + 1);
    assert((word as u16 as u32) | (((word >> 16u32) as u16 as u32) << 16u32) == word) by (bit_vector);
    let i0 = transfer_index(x as int, y as int, width as int, 2 * k);
    let i1 = transfer_index(x as int, y as int, width as int, 2 * k + 1);
    assert(0 <= i0 < 0x8_0000 && 0 <= i1 < 0x8_0000) by {
        assert(0 <= (x + (2 * k) % (width as int)) % 1024 < 1024);
        assert(0 <= (y + (2 * k) / (width as int)) % 512 < 512);
        assert(0 <= (x + (2 * k + 1) % (width as int)) % 1024 < 1024);
        assert(0 <= (y + (2 * k + 1) / (width as int)) % 512 < 512);
    }
    assert(width * height <= 0x8_0000) by (nonlinear_arith)
        requires
            1 <= width <= 1024,
            1 <= height <= 512,
    ;
    assert(((2 * k) as usize) as int == 2 * k);
    let first = transfer_pixel_spec(vram, false, false, i0, word as u16);
    let n = transfer_pixel_spec(first, false, false, i1, (word >> 16u32) as u16);
    assert(upload_word_spec(vram, false, false, x, y, width, height, (2 * k) as usize, word) == n);
    assert(n[i0] == word as u16);
    assert(n[i1] == (word >> 16u32) as u16);
}

pub open spec fn upload_word_spec(vram: Seq<u16>, mask_set: bool, mask_check: bool, x: u16, y: u16, width: u16, height: u16, pixel_index: usize, word: u32) -> Seq<u16> {
    let n = width * height;
    if pixel_index >= n {
        vram
    } else {
        let first = transfer_pixel_spec(vram, mask_set, mask_check, transfer_index(x as int, y as int, width as int, pixel_index as int), word as u16);
        if pixel_index + 1 >= n {
            first
        } else {
            transfer_pixel_spec(
                first,
                mask_set,
                mask_check,
                transfer_index(x as int, y as int, width as int, pixel_index + 1),
                (word >> 16u32) as u16,
            )
        }
    }
}

} // verus!

verus! {

/// Clearing the two low bits rounds down to a multiple of four.
proof fn lemma_round_down_to_four(x: usize)
    by (bit_vector)
    ensures
        (x & !3usize) <= x,
        x - (x & !3usize) < 4,
{
}

/// In the 512- and 640-pixel modes the display is as wide as the mode
/// when no horizontal range is set; otherwise each pixel takes five (512)
/// or four (640) dot clocks of the range, the width rounded to a multiple
/// of four and limited to 640.
pub proof fn lemma_display_width_high_modes(h_start: u16, h_end: u16, mode: u32)
    requires
        mode & 0x40 == 0,
        mode & 3 == 2 || mode & 3 == 3,
    ensures
        ({
            let w = display_width_spec(h_start, h_end, mode) as int;
            let c: int = if mode & 3 == 2 { 5 } else { 4 };
            let full: int = if mode & 3 == 2 { 512 } else { 640 };
            let range: int = if h_end >= h_start { h_end - h_start } else { 0 };
            &&& range == 0 ==> w == full
            &&& range > 0 ==> 1 <= w <= 640 && w * c <= range + 2 * c
            &&& range > 0 ==> w == 640 || range < c * (w + 2)
        }),
{
    let c: int = if mode & 3 == 2 { 5 } else { 4 };
    let range: int = if h_end >= h_start { h_end - h_start } else { 0 };
    if range > 0 {
        let q: int = range / c;
        let x: usize = (q + 2) as usize;
        lemma_round_down_to_four(x);
        let y = (x & !3usize) as int;
        assert(q * c <= range < q * c + c) by (nonlinear_arith)
            requires
                q == range / c,
                c == 4 || c == 5,
                range > 0,
        ;
        assert(x - 4 < y <= x);
        assert(y * c <= (q + 2) * c) by (nonlinear_arith)
            requires
                y <= q + 2,
                c > 0,
        ;
        assert(range < c * (y + 2)) by (nonlinear_arith)
            requires
                q + 2 - 4 < y,
                range < q * c + c,
                c > 0,
        ;
    }
}

} // verus!

verus! {

/// In the 256-, 320- and 368-pixel modes the display is as wide as the
/// mode when no horizontal range is set; otherwise each pixel takes ten
/// (256), eight (320) or seven (368) dot clocks of the range, the width
/// rounded to a multiple of four and limited to 640.
pub proof fn lemma_display_width_low_modes(h_start: u16, h_end: u16, mode: u32)
    requires
        mode & 0x40 != 0 || mode & 3 == 0 || mode & 3 == 1,
    ensures
        ({
            let w = display_width_spec(h_start, h_end, mode) as int;
            let c: int = if mode & 0x40 != 0 { 7 } else if mode & 3 == 0 { 10 } else { 8 };
            let full: int = if mode & 0x40 != 0 { 368 } else if mode & 3 == 0 { 256 } else { 320 };
            let range: int = if h_end >= h_start { h_end - h_start } else { 0 };
            &&& range == 0 ==> w == full
            &&& range > 0 ==> 1 <= w <= 640 && w * c <= range + 2 * c
            &&& range > 0 ==> w == 640 || range < c * (w + 2)
        }),
{
    let c: int = if mode & 0x40 != 0 { 7 } else if mode & 3 == 0 { 10 } else { 8 };
    let range: int = if h_end >= h_start { h_end - h_start } else { 0 };
    if range > 0 {
        let q: int = range / c;
        let x: usize = (q + 2) as usize;
        lemma_round_down_to_four(x);
        let y = (x & !3usize) as int;
        assert(q * c <= range < q * c + c) by (nonlinear_arith)
            requires
                q == range / c,
                7 <= c <= 10,
                range > 0,
        ;
        assert(y * c <= (q + 2) * c) by (nonlinear_arith)
            requires
                y <= q + 2,
                c > 0,
        ;
        assert(range < c * (y + 2)) by (nonlinear_arith)
            requires
                q + 2 - 4 < y,
                range < q * c + c,
                c > 0,
        ;
    }
}

/// The display is as tall as the vertical range when one is set (at most
/// 480 lines), else 240 lines, or 480 for interlaced 480-line modes.
pub proof fn lemma_display_height(v_start: u16, v_end: u16, mode: u32)
    ensures
        ({
            let h = display_height_spec(v_start, v_end, mode) as int;
            let range: int = if v_end >= v_start { v_end - v_start } else { 0 };
            &&& 0 < range <= 480 ==> h == range
            &&& range > 480 ==> h == 480
            &&& range == 0 ==> h == if mode & 0x20 != 0 && mode & 0x04 != 0 { 480int } else { 240int }
        }),
{
}

} // verus!
