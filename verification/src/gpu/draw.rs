//! Rasterisation: VRAM fills and copies, flat and textured rectangles,
//! flat, shaded and textured triangles and quads, and lines and polylines.
//! Every primitive except fills and copies stays inside the drawing area.
use super::color::{
    bgr555_dither_spec, bgr555_spec, blend555, blend555_spec, interpolate_i32, interpolate_line_color, line_color_spec,
    interpolate_rgb24, interpolate_rgb24_spec, interpolate_spec, modulate_texel, modulate_texel_spec, rgb24_to_bgr555,
    rgb24_to_bgr555_dither, weights_ok,
};
use super::{
    coord_ok, copy_height_spec, copy_size, copy_width_spec, edge, edge_spec, max3, max_vertex_delta, min3, sign_extend, transfer_index, vram_index, Gpu,
    Vertex,
};
use crate::bits::sign_extend11_spec;
use crate::{GPU_VRAM_HEIGHT, GPU_VRAM_WIDTH};
use vstd::prelude::*;

verus! {

broadcast use crate::bits::group_bits;

/// How a triangle is filled.
#[derive(Debug, Clone, Copy)]
pub struct PolygonStyle {
    pub textured: bool,
    pub gouraud: bool,
    pub semi_transparent: bool,
    pub raw_texture: bool,
    pub clut: u16,
    pub texpage: u16,
    pub flat_color: u32,
}

/// One texture lookup: coordinates, palette and page, and the shading to apply.
#[derive(Debug, Clone, Copy)]
pub struct TextureSample {
    pub u: i32,
    pub v: i32,
    pub clut: u16,
    pub texpage: u16,
    pub raw_texture: bool,
    pub shade: u32,
    pub screen_x: i32,
    pub screen_y: i32,
}

/// The drawing registers that decide where and how a primitive lands in
/// VRAM.
#[derive(Debug, Clone, Copy)]
pub struct DrawRegs {
    pub draw_mode: u16,
    pub texture_window: u32,
    pub draw_area_x1: u16,
    pub draw_area_y1: u16,
    pub draw_area_x2: u16,
    pub draw_area_y2: u16,
    pub draw_offset_x: i16,
    pub draw_offset_y: i16,
    pub mask_set: bool,
    pub mask_check: bool,
}

impl Gpu {
    pub open spec fn draw_regs(&self) -> DrawRegs {
        DrawRegs {
            draw_mode: self.draw_mode,
            texture_window: self.texture_window,
            draw_area_x1: self.draw_area_x1,
            draw_area_y1: self.draw_area_y1,
            draw_area_x2: self.draw_area_x2,
            draw_area_y2: self.draw_area_y2,
            draw_offset_x: self.draw_offset_x,
            draw_offset_y: self.draw_offset_y,
            mask_set: self.mask_set,
            mask_check: self.mask_check,
        }
    }
}

/// A VRAM pixel addressed with wrap-around.
pub open spec fn vram_at_spec(vram: Seq<u16>, x: int, y: int) -> u16 {
    vram[vram_index(x % 1024, y % 512)]
}

/// Texture coordinates after the texture window: masked bits replaced by
/// the window offset, then reduced to 0..=255.
pub open spec fn texture_window_spec(window: u32, u: i32, v: i32) -> (i32, i32) {
    let mask_x = ((window & 0x1f) * 8) as i32;
    let mask_y = (((window >> 5u32) & 0x1f) * 8) as i32;
    let offset_x = (((window >> 10u32) & 0x1f) * 8) as i32;
    let offset_y = (((window >> 15u32) & 0x1f) * 8) as i32;
    ((((u & !mask_x) | (offset_x & mask_x)) & 0xff), (((v & !mask_y) | (offset_y & mask_y)) & 0xff))
}

/// The texel a sample reads: 4-bit and 8-bit modes look their index up in
/// the palette, 15-bit mode reads the pixel directly.
pub open spec fn texel_spec(vram: Seq<u16>, window: u32, s: TextureSample) -> u16 {
    let (u, v) = texture_window_spec(window, s.u, s.v);
    let m = (s.texpage >> 7u16) & 3;
    let mode = if m > 2 { 2 } else { m };
    let base_x = ((s.texpage & 0x0f) as int) * 64;
    let base_y = (((s.texpage >> 4u16) & 1) as int) * 256;
    let clut_x = ((s.clut & 0x3f) as int) * 16;
    let clut_y = ((s.clut >> 6u16) & 0x1ff) as int;
    if mode == 0 {
        let packed = vram_at_spec(vram, base_x + u / 4, base_y + v);
        let index = ((packed >> (((u & 3) * 4) as u16)) & 0x0f) as int;
        vram_at_spec(vram, clut_x + index, clut_y)
    } else if mode == 1 {
        let packed = vram_at_spec(vram, base_x + u / 2, base_y + v);
        let index = (if u & 1 == 0 { packed & 0xff } else { packed >> 8u16 }) as int;
        vram_at_spec(vram, clut_x + index, clut_y)
    } else {
        vram_at_spec(vram, base_x + u, base_y + v)
    }
}

/// A 24-bit colour as the GPU writes it: dithered when the texture page enables dithering.
pub open spec fn render_color_spec(draw_mode: u16, rgb: u32, x: i32, y: i32) -> u16 {
    if draw_mode & 0x200 != 0 {
        bgr555_dither_spec(rgb, x, y)
    } else {
        bgr555_spec(rgb)
    }
}

/// The value a drawn pixel takes: blended over the old pixel when
/// semi-transparent (textured pixels only when their mask bit is set),
/// then given the mask bit, or losing it for untextured pixels.
pub open spec fn render_pixel_value(g: DrawRegs, back: u16, color: u16, semi: bool, textured: bool) -> u16 {
    let c = if semi && (!textured || color & 0x8000 != 0) {
        blend555_spec(back, color, (g.draw_mode >> 5u16) & 3)
    } else {
        color
    };
    if g.mask_set {
        c | 0x8000
    } else if !textured {
        c & 0x7fff
    } else {
        c
    }
}

/// The VRAM after drawing one pixel: clipped to the drawing area and VRAM,
/// refused over a masked pixel when mask checking is on, otherwise given
/// `render_pixel_value`.  `g` supplies the drawing registers.
pub open spec fn plot_spec(g: DrawRegs, vram: Seq<u16>, x: int, y: int, color: u16, semi: bool, textured: bool) -> Seq<u16> {
    let i = vram_index(x, y);
    if drawable(g, x, y) && !(g.mask_check && vram[i] & 0x8000 != 0) {
        vram.update(i, render_pixel_value(g, vram[i], color, semi, textured))
    } else {
        vram
    }
}

/// The VRAM after drawing one textured pixel: a fully zero texel leaves the
/// pixel alone, others are drawn raw or shaded.
pub open spec fn texture_plot_spec(g: DrawRegs, vram: Seq<u16>, s: TextureSample, semi: bool) -> Seq<u16> {
    let t = texel_spec(vram, g.texture_window, s);
    if t == 0 {
        vram
    } else {
        let texel = if s.raw_texture {
            t
        } else {
            modulate_texel_spec(t, s.shade, g.draw_mode & 0x200 != 0, s.screen_x, s.screen_y)
        };
        plot_spec(g, vram, s.screen_x as int, s.screen_y as int, texel, semi, true)
    }
}

/// A raster walk over columns `x0..=x1`, row after row from `y0`: the VRAM
/// once every row before `y` and the columns before `x` of row `y` have
/// been drawn by `plot`, in that order.
#[verifier::opaque]
pub open spec fn raster(
    vram: Seq<u16>,
    x0: int,
    x1: int,
    y0: int,
    y: int,
    x: int,
    plot: spec_fn(Seq<u16>, int, int) -> Seq<u16>,
) -> Seq<u16>
    decreases y - y0, x - x0,
{
    if x > x0 {
        plot(raster(vram, x0, x1, y0, y, x - 1, plot), x - 1, y)
    } else if y > y0 {
        raster(vram, x0, x1, y0, y - 1, x1 + 1, plot)
    } else {
        vram
    }
}

/// A raster walk that has not started leaves VRAM as it was.
proof fn lemma_raster_start(vram: Seq<u16>, x0: int, x1: int, y0: int, plot: spec_fn(Seq<u16>, int, int) -> Seq<u16>)
    ensures
        raster(vram, x0, x1, y0, y0, x0, plot) == vram,
{
    reveal(raster);
}

/// One more pixel of the current row.
proof fn lemma_raster_next(
    vram: Seq<u16>,
    x0: int,
    x1: int,
    y0: int,
    y: int,
    x: int,
    plot: spec_fn(Seq<u16>, int, int) -> Seq<u16>,
)
    requires
        x >= x0,
    ensures
        raster(vram, x0, x1, y0, y, x + 1, plot) == plot(raster(vram, x0, x1, y0, y, x, plot), x, y),
{
    reveal(raster);
}

/// A finished row is where the next row starts.
proof fn lemma_raster_next_row(
    vram: Seq<u16>,
    x0: int,
    x1: int,
    y0: int,
    y: int,
    plot: spec_fn(Seq<u16>, int, int) -> Seq<u16>,
)
    requires
        y >= y0,
    ensures
        raster(vram, x0, x1, y0, y + 1, x0, plot) == raster(vram, x0, x1, y0, y, x1 + 1, plot),
{
    reveal(raster);
}

/// Where a vertex word puts a vertex, after the drawing offset.
pub open spec fn vertex_position(g: DrawRegs, word: u32) -> (int, int) {
    (
        sign_extend11_spec(word & 0x07ff) + g.draw_offset_x,
        sign_extend11_spec((word >> 16u32) & 0x07ff) + g.draw_offset_y,
    )
}

/// The width and height of a rectangle packet: from its size word, or a
/// fixed 1, 8 or 16 pixel square.
pub open spec fn rectangle_size(words: Seq<u32>) -> (int, int) {
    let command = (words[0] >> 24u32) as u8;
    let size_code = (command >> 3u8) & 0x03;
    if size_code == 0 {
        let wh = words[if command & 0x04 != 0 { 3int } else { 2int }];
        ((wh & 0xffff) as int, ((wh >> 16u32) & 0xffff) as int)
    } else if size_code == 1 {
        (1, 1)
    } else if size_code == 2 {
        (8, 8)
    } else {
        (16, 16)
    }
}

/// The VRAM after drawing pixel (dx, dy) of a rectangle packet, counted
/// from its top-left vertex; the texture runs backwards along a flipped axis.
pub open spec fn rectangle_pixel(g: DrawRegs, vram: Seq<u16>, words: Seq<u32>, dx: int, dy: int) -> Seq<u16> {
    let command = (words[0] >> 24u32) as u8;
    let semi = command & 0x02 != 0;
    let (x, y) = vertex_position(g, words[1]);
    let base = words[0] & 0x00ff_ffff;
    if command & 0x04 != 0 {
        let uv = words[2];
        let u = (uv & 0xff) as int;
        let v = ((uv >> 8u32) & 0xff) as int;
        let s = TextureSample {
            u: (if g.draw_mode & 0x1000 != 0 { u - dx } else { u + dx }) as i32,
            v: (if g.draw_mode & 0x2000 != 0 { v - dy } else { v + dy }) as i32,
            clut: (uv >> 16u32) as u16,
            texpage: g.draw_mode,
            raw_texture: command & 0x01 != 0,
            shade: base,
            screen_x: (x + dx) as i32,
            screen_y: (y + dy) as i32,
        };
        texture_plot_spec(g, vram, s, semi)
    } else {
        plot_spec(g, vram, x + dx, y + dy, render_color_spec(g.draw_mode, base, (x + dx) as i32, (y + dy) as i32), semi, false)
    }
}

pub open spec fn rectangle_plot(g: DrawRegs, words: Seq<u32>) -> spec_fn(Seq<u16>, int, int) -> Seq<u16> {
    |vram: Seq<u16>, dx: int, dy: int| rectangle_pixel(g, vram, words, dx, dy)
}

/// The VRAM after a rectangle packet: its pixels drawn row by row; an empty
/// rectangle, or one wider than 1023 or taller than 511 pixels, draws nothing.
pub open spec fn render_rectangle_spec(g: DrawRegs, vram: Seq<u16>, words: Seq<u32>) -> Seq<u16> {
    let (w, h) = rectangle_size(words);
    if w <= 0 || h <= 0 || w > 1023 || h > 511 {
        vram
    } else {
        raster(vram, 0, w - 1, 0, h, 0, rectangle_plot(g, words))
    }
}

/// The triangle's bounding box clipped to the drawing area and VRAM:
/// (min x, max x, min y, max y).
pub open spec fn triangle_box(g: DrawRegs, v0: Vertex, v1: Vertex, v2: Vertex) -> (int, int, int, int) {
    let min_x = min3(v0.x as int, v1.x as int, v2.x as int);
    let max_x = max3(v0.x as int, v1.x as int, v2.x as int);
    let min_y = min3(v0.y as int, v1.y as int, v2.y as int);
    let max_y = max3(v0.y as int, v1.y as int, v2.y as int);
    let x0 = if min_x < g.draw_area_x1 { g.draw_area_x1 as int } else { min_x };
    let x1 = if max_x > g.draw_area_x2 { g.draw_area_x2 as int } else { max_x };
    let y0 = if min_y < g.draw_area_y1 { g.draw_area_y1 as int } else { min_y };
    let y1 = if max_y > g.draw_area_y2 { g.draw_area_y2 as int } else { max_y };
    (if x0 < 0 { 0 } else { x0 }, if x1 > 1023 { 1023 } else { x1 }, if y0 < 0 { 0 } else { y0 }, if y1 > 511 {
        511
    } else {
        y1
    })
}

/// Whether a triangle draws nothing: its clipped box is empty, it is wider
/// than 1023 or taller than 511 pixels, or its vertices are collinear.
pub open spec fn triangle_dropped(g: DrawRegs, v0: Vertex, v1: Vertex, v2: Vertex) -> bool {
    let (x0, x1, y0, y1) = triangle_box(g, v0, v1, v2);
    ||| x0 > x1 || y0 > y1
    ||| max3(v0.x as int, v1.x as int, v2.x as int) - min3(v0.x as int, v1.x as int, v2.x as int) > 1023
    ||| max3(v0.y as int, v1.y as int, v2.y as int) - min3(v0.y as int, v1.y as int, v2.y as int) > 511
    ||| edge_spec(v0, v1, v2.x as int, v2.y as int) == 0
}

/// The VRAM after visiting pixel (x, y) of a triangle: a pixel whose centre
/// lies inside or on all three edges is drawn, its shade, texture
/// coordinates and colour interpolated from the vertices when Gouraud
/// shaded or textured.
pub open spec fn triangle_pixel(
    g: DrawRegs,
    vram: Seq<u16>,
    v0: Vertex,
    v1: Vertex,
    v2: Vertex,
    style: PolygonStyle,
    x: int,
    y: int,
) -> Seq<u16> {
    let area = edge_spec(v0, v1, v2.x as int, v2.y as int);
    let area_abs = if area > 0 { area } else { -area };
    let w0 = if area > 0 { edge_spec(v1, v2, x, y) } else { -edge_spec(v1, v2, x, y) };
    let w1 = if area > 0 { edge_spec(v2, v0, x, y) } else { -edge_spec(v2, v0, x, y) };
    let w2 = if area > 0 { edge_spec(v0, v1, x, y) } else { -edge_spec(v0, v1, x, y) };
    if w0 >= 0 && w1 >= 0 && w2 >= 0 {
        let shade = if style.gouraud {
            interpolate_rgb24_spec(v0.color, v1.color, v2.color, w0 as i64, w1 as i64, w2 as i64, area_abs as i64)
        } else {
            style.flat_color
        };
        if style.textured {
            let s = TextureSample {
                u: interpolate_spec(v0.u as int, v1.u as int, v2.u as int, w0, w1, w2, area_abs) as i32,
                v: interpolate_spec(v0.v as int, v1.v as int, v2.v as int, w0, w1, w2, area_abs) as i32,
                clut: style.clut,
                texpage: style.texpage,
                raw_texture: style.raw_texture,
                shade,
                screen_x: x as i32,
                screen_y: y as i32,
            };
            texture_plot_spec(g, vram, s, style.semi_transparent)
        } else {
            plot_spec(g, vram, x, y, render_color_spec(g.draw_mode, shade, x as i32, y as i32), style.semi_transparent, false)
        }
    } else {
        vram
    }
}

pub open spec fn triangle_plot(g: DrawRegs, v0: Vertex, v1: Vertex, v2: Vertex, style: PolygonStyle) -> spec_fn(
    Seq<u16>,
    int,
    int,
) -> Seq<u16> {
    |vram: Seq<u16>, x: int, y: int| triangle_pixel(g, vram, v0, v1, v2, style, x, y)
}

/// The VRAM after a triangle: the pixels of its clipped bounding box
/// visited row by row, unless the triangle is dropped.
pub open spec fn render_triangle_spec(g: DrawRegs, vram: Seq<u16>, v0: Vertex, v1: Vertex, v2: Vertex, style: PolygonStyle) -> Seq<u16> {
    let (x0, x1, y0, y1) = triangle_box(g, v0, v1, v2);
    if triangle_dropped(g, v0, v1, v2) {
        vram
    } else {
        raster(vram, x0, x1, y0, y1 + 1, x0, triangle_plot(g, v0, v1, v2, style))
    }
}

/// Where vertex `k` of a polygon packet starts: after the command word,
/// the earlier vertices with their texture words, and, when shaded, the
/// colour words of vertices 1 to k.
pub open spec fn polygon_vertex_word(command: u8, k: int) -> int {
    let per_vertex: int = if command & 0x04 != 0 { 2 } else { 1 };
    1 + k * per_vertex + (if command & 0x10 != 0 && k > 0 { k } else { 0 })
}

/// Vertex `k` of a polygon packet: its position, texture coordinates and
/// colour (the command's colour unless shaded).
pub open spec fn polygon_vertex(g: DrawRegs, words: Seq<u32>, k: int) -> Vertex {
    let command = (words[0] >> 24u32) as u8;
    let i = polygon_vertex_word(command, k);
    let (x, y) = vertex_position(g, words[i]);
    let textured = command & 0x04 != 0;
    Vertex {
        x: x as i32,
        y: y as i32,
        u: if textured { (words[i + 1] & 0xff) as i32 } else { 0 },
        v: if textured { ((words[i + 1] >> 8u32) & 0xff) as i32 } else { 0 },
        color: if command & 0x10 != 0 && k > 0 { words[i - 1] & 0x00ff_ffff } else { words[0] & 0x00ff_ffff },
    }
}

/// How a polygon packet fills: palette from vertex 0's texture word, texture
/// page bits from vertex 1's.
pub open spec fn polygon_style(g: DrawRegs, words: Seq<u32>) -> PolygonStyle {
    let command = (words[0] >> 24u32) as u8;
    let textured = command & 0x04 != 0;
    PolygonStyle {
        textured,
        gouraud: command & 0x10 != 0,
        semi_transparent: command & 0x02 != 0,
        raw_texture: command & 0x01 != 0,
        clut: if textured { (words[polygon_vertex_word(command, 0) + 1] >> 16u32) as u16 } else { 0 },
        texpage: if textured {
            (g.draw_mode & !0x09ffu16) | ((words[polygon_vertex_word(command, 1) + 1] >> 16u32) as u16 & 0x09ff)
        } else {
            g.draw_mode
        },
        flat_color: words[0] & 0x00ff_ffff,
    }
}

/// The VRAM after a polygon packet: a triangle of vertices 0, 1, 2, and for
/// a quad a second one of vertices 1, 2, 3.
pub open spec fn render_polygon_spec(g: DrawRegs, vram: Seq<u16>, words: Seq<u32>) -> Seq<u16> {
    let style = polygon_style(g, words);
    let first = render_triangle_spec(
        g,
        vram,
        polygon_vertex(g, words, 0),
        polygon_vertex(g, words, 1),
        polygon_vertex(g, words, 2),
        style,
    );
    if ((words[0] >> 24u32) as u8) & 0x08 != 0 {
        render_triangle_spec(g, first, polygon_vertex(g, words, 1), polygon_vertex(g, words, 2), polygon_vertex(g, words, 3), style)
    } else {
        first
    }
}

/// Whether cell `q` lies among the `len` cells from `start` on a ring of
/// `size` cells: a span that runs past the last cell goes on from cell 0.
pub open spec fn in_ring_span(q: int, start: int, len: int, size: int) -> bool {
    start <= q < start + len || q + size < start + len
}

/// Whether VRAM pixel `i` lies in the rectangle of a fill command: x in
/// steps of 16, the width rounded up to 16, both axes wrapping around VRAM.
pub open spec fn fill_covers(xy: u32, wh: u32, i: int) -> bool {
    let x = (xy & 0x03f0) as int;
    let y = ((xy >> 16u32) & 0x01ff) as int;
    let w = ((((wh & 0x03ff) + 0x0f) as u32) & !0x0fu32) as int;
    let h = ((wh >> 16u32) & 0x01ff) as int;
    in_ring_span(i % 1024, x, w, 1024) && in_ring_span(i / 1024, y, h, 512)
}

/// What a VRAM-to-VRAM copy leaves at destination pixel `dst` for source
/// pixel `src`: the source value (with the mask bit when mask setting is
/// on), unless mask checking protects the destination.
pub open spec fn copy_value(vram: Seq<u16>, mask_set: bool, mask_check: bool, src: int, dst: int) -> u16 {
    if mask_check && vram[dst] & 0x8000 != 0 {
        vram[dst]
    } else if mask_set {
        vram[src] | 0x8000
    } else {
        vram[src]
    }
}

/// Whether a screen position lies inside both the drawing area and VRAM.
pub open spec fn drawable(g: DrawRegs, x: int, y: int) -> bool {
    &&& g.draw_area_x1 <= x <= g.draw_area_x2
    &&& g.draw_area_y1 <= y <= g.draw_area_y2
    &&& 0 <= x < 1024
    &&& 0 <= y < 512
}

proof fn lemma_vram_index(x: int, y: int)
    requires
        0 <= x < 1024,
        0 <= y < 512,
    ensures
        vram_index(x, y) % 1024 == x,
        vram_index(x, y) / 1024 == y,
        0 <= vram_index(x, y) < 0x8_0000,
{
    vstd::arithmetic::div_mod::lemma_fundamental_div_mod_converse(vram_index(x, y), 1024, y, x);
}

/// Vertex positions after the drawing offset.
pub open spec fn vertex_ok(v: Vertex) -> bool {
    &&& -0x8400 <= v.x <= 0x83ff
    &&& -0x8400 <= v.y <= 0x83ff
    &&& 0 <= v.u <= 255
    &&& 0 <= v.v <= 255
}

impl Gpu {
    /// Applies the drawing offset to a vertex word's two 11-bit coordinates.
    pub(crate) fn decode_vertex(&self, word: u32) -> (r: (i32, i32))
        ensures
            r.0 == sign_extend11_spec(word & 0x07ff) + self.draw_offset_x,
            r.1 == sign_extend11_spec((word >> 16u32) & 0x07ff) + self.draw_offset_y,
            -0x8400 <= r.0 <= 0x83ff,
            -0x8400 <= r.1 <= 0x83ff,
    {
        let x = sign_extend(word & 0x07ff, 11) + self.draw_offset_x as i32;
        let y = sign_extend((word >> 16u32) & 0x07ff, 11) + self.draw_offset_y as i32;
        (x, y)
    }

    pub(crate) fn render_color(&self, rgb: u32, x: i32, y: i32) -> (r: u16)
        ensures
            r == render_color_spec(self.draw_mode, rgb, x, y),
    {
        if (self.draw_mode & 0x200) != 0 {
            rgb24_to_bgr555_dither(rgb, x, y)
        } else {
            rgb24_to_bgr555(rgb)
        }
    }

    fn vram_at(&self, x: usize, y: usize) -> (r: u16)
        requires
            self.wf(),
        ensures
            r == vram_at_spec(self.vram@, x as int, y as int),
    {
        proof {
            lemma_vram_index((x % 1024) as int, (y % 512) as int);
        }
        self.vram[(y % GPU_VRAM_HEIGHT) * GPU_VRAM_WIDTH + (x & (GPU_VRAM_WIDTH - 1))]
    }

    fn apply_texture_window(&self, u: i32, v: i32) -> (r: (i32, i32))
        ensures
            r == texture_window_spec(self.texture_window, u, v),
            0 <= r.0 <= 255,
            0 <= r.1 <= 255,
    {
        let mask_x = ((self.texture_window & 0x1f) as i32) * 8;
        let mask_y = (((self.texture_window >> 5u32) & 0x1f) as i32) * 8;
        let offset_x = (((self.texture_window >> 10u32) & 0x1f) as i32) * 8;
        let offset_y = (((self.texture_window >> 15u32) & 0x1f) as i32) * 8;
        let wu = (u & !mask_x) | (offset_x & mask_x);
        let wv = (v & !mask_y) | (offset_y & mask_y);
        (wu & 0xff, wv & 0xff)
    }

    /// Reads a texel through the window, page and palette; a fully zero
    /// texel is transparent, others are shaded unless raw.
    fn sample_texture(&self, sample: TextureSample) -> (r: Option<(u16, bool)>)
        requires
            self.wf(),
        ensures
            ({
                let t = texel_spec(self.vram@, self.texture_window, sample);
                r == if t == 0 {
                    Some((0u16, true))
                } else if sample.raw_texture {
                    Some((t, false))
                } else {
                    Some((modulate_texel_spec(t, sample.shade, self.draw_mode & 0x200 != 0, sample.screen_x, sample.screen_y), false))
                }
            }),
    {
        let (u, v) = self.apply_texture_window(sample.u, sample.v);
        let m = (sample.texpage >> 7u16) & 0x03;
        let mode = if m > 2 { 2 } else { m };
        let base_x = ((sample.texpage & 0x0f) as usize) * 64;
        let base_y = (((sample.texpage >> 4u16) & 1) as usize) * 256;
        let clut_x = ((sample.clut & 0x003f) as usize) * 16;
        let clut_word = sample.clut;
        let clut_y = ((clut_word >> 6u16) as usize) & 0x01ff;
        assert(((clut_word >> 6u16) as usize) & 0x01ff == ((clut_word >> 6u16) & 0x1ff) as usize) by (bit_vector);
        let texel = if mode == 0 {
            let packed = self.vram_at(base_x + (u as usize / 4), base_y + v as usize);
            let index = ((packed >> (((u & 3) * 4) as u16)) & 0x0f) as usize;
            self.vram_at(clut_x + index, clut_y)
        } else if mode == 1 {
            let packed = self.vram_at(base_x + (u as usize / 2), base_y + v as usize);
            let index = (if (u & 1) == 0 {
                packed & 0x00ff
            } else {
                packed >> 8u16
            }) as usize;
            self.vram_at(clut_x + index, clut_y)
        } else {
            self.vram_at(base_x + u as usize, base_y + v as usize)
        };
        assert((texel & 0x7fff) == 0 && (texel & 0x8000) == 0 <==> texel == 0) by (bit_vector);
        if (texel & 0x7fff) == 0 && (texel & 0x8000) == 0 {
            return Some((0, true));
        }
        if sample.raw_texture {
            Some((texel, false))
        } else {
            Some((modulate_texel(texel, sample.shade, (self.draw_mode & 0x200) != 0, sample.screen_x, sample.screen_y), false))
        }
    }

    /// Writes one drawn pixel, clipped to the drawing area and honouring the mask bits.
    pub(crate) fn write_render_pixel(&mut self, x: i32, y: i32, color: u16, semi_transparent: bool, textured: bool)
        requires
            old(self).wf(),
        ensures
            final(self).wf(),
            final(self).vram@ == plot_spec(old(self).draw_regs(), old(self).vram@, x as int, y as int, color, semi_transparent, textured),
            final(self).clipped_since(old(self).vram@),
            *final(self) == (Gpu { vram: final(self).vram, ..*old(self) }),
    {
        if x < self.draw_area_x1 as i32 || x > self.draw_area_x2 as i32 || y < self.draw_area_y1 as i32 || y
            > self.draw_area_y2 as i32 || x < 0 || y < 0 || x >= GPU_VRAM_WIDTH as i32 || y >= GPU_VRAM_HEIGHT as i32 {
            return;
        }
        proof {
            lemma_vram_index(x as int, y as int);
        }
        let index = y as usize * GPU_VRAM_WIDTH + x as usize;
        let back = self.vram[index];
        if self.mask_check && (back & 0x8000) != 0 {
            return;
        }
        let mut color = color;
        if semi_transparent && (!textured || (color & 0x8000) != 0) {
            color = blend555(back, color, (self.draw_mode >> 5u16) & 0x03);
        }
        if self.mask_set {
            color = color | 0x8000;
        } else if !textured {
            color = color & 0x7fff;
        }
        self.vram.set(index, color);
    }

    /// GP0(02h): fills a rectangle (x in steps of 16, width rounded up to
    /// 16) with a colour, ignoring the drawing area and mask bits.
    pub(crate) fn fill_rect(&mut self, command: u32, xy: u32, wh: u32)
        requires
            old(self).wf(),
        ensures
            final(self).wf(),
            *final(self) == (Gpu { vram: final(self).vram, ..*old(self) }),
            forall|i: int|
                0 <= i < 0x8_0000 ==> #[trigger] final(self).vram@[i] == if fill_covers(xy, wh, i) {
                    bgr555_spec(command & 0x00ff_ffff)
                } else {
                    old(self).vram@[i]
                },
    {
        let color = rgb24_to_bgr555(command & 0x00ff_ffff);
        let x = (xy & 0x03f0) as usize;
        let y = ((xy >> 16u32) & 0x01ff) as usize;
        let width = ((((wh & 0x03ff) + 0x0f) as u32) & !0x0fu32) as usize;
        let height = ((wh >> 16u32) & 0x01ff) as usize;
        if width == 0 || height == 0 {
            return;
        }
        assert(((((wh & 0x03ff) + 0x0f) as u32) & !0x0fu32) <= 0x400) by (bit_vector);
        let ghost before = old(self).vram@;
        let mut dy: usize = 0;
        while dy < height
            invariant
                self.wf(),
                *self == (Gpu { vram: self.vram, ..*old(self) }),
                before == old(self).vram@,
                height <= 0x1ff,
                width <= 0x400,
                x <= 0x3f0,
                y <= 0x1ff,
                dy <= height,
                forall|i: int|
                    0 <= i < 0x8_0000 ==> #[trigger] self.vram@[i] == if in_ring_span(i % 1024, x as int, width as int, 1024)
                        && in_ring_span(i / 1024, y as int, dy as int, 512) {
                        color
                    } else {
                        before[i]
                    },
            decreases height - dy,
        {
            let py = (y + dy) % GPU_VRAM_HEIGHT;
            let mut dx: usize = 0;
            while dx < width
                invariant
                    self.wf(),
                    *self == (Gpu { vram: self.vram, ..*old(self) }),
                    before == old(self).vram@,
                    width <= 0x400,
                    x <= 0x3f0,
                    y <= 0x1ff,
                    dy < height <= 0x1ff,
                    py == (y + dy) % 512,
                    dx <= width,
                    forall|i: int|
                        0 <= i < 0x8_0000 ==> #[trigger] self.vram@[i] == if (in_ring_span(i % 1024, x as int, width as int, 1024)
                            && in_ring_span(i / 1024, y as int, dy as int, 512)) || (i / 1024 == py && in_ring_span(
                            i % 1024,
                            x as int,
                            dx as int,
                            1024,
                        )) {
                            color
                        } else {
                            before[i]
                        },
                decreases width - dx,
            {
                let px = (x + dx) & (GPU_VRAM_WIDTH - 1);
                proof {
                    crate::bits::lemma_mask_mod_usize((x + dx) as usize);
                    lemma_vram_index(px as int, py as int);
                }
                self.vram.set(py * GPU_VRAM_WIDTH + px, color);
                dx += 1;
            }
            dy += 1;
        }
    }

    /// GP0(80h): copies a rectangle within VRAM; the source is read in full
    /// before any pixel is written.
    pub(crate) fn copy_vram_to_vram(&mut self, src_xy: u32, dst_xy: u32, wh: u32)
        requires
            old(self).wf(),
        ensures
            final(self).wf(),
            *final(self) == (Gpu { vram: final(self).vram, ..*old(self) }),
            ({
                let w = copy_width_spec(wh) as int;
                copied_so_far(
                    old(self).vram@,
                    final(self).vram@,
                    old(self).mask_set,
                    old(self).mask_check,
                    (src_xy & 0x03ff) as int,
                    ((src_xy >> 16u32) & 0x01ff) as int,
                    (dst_xy & 0x03ff) as int,
                    ((dst_xy >> 16u32) & 0x01ff) as int,
                    w,
                    w * copy_height_spec(wh),
                )
            }),
    {
        let src_x = (src_xy & 0x03ff) as usize;
        let src_y = ((src_xy >> 16u32) & 0x01ff) as usize;
        let dst_x = (dst_xy & 0x03ff) as usize;
        let dst_y = ((dst_xy >> 16u32) & 0x01ff) as usize;
        let (width, height) = copy_size(wh);
        let w = width as usize;
        let h = height as usize;
        proof {
            crate::bits::lemma_mul_bounds(w as int, h as int, 1024, 512);
        }
        let mut pixels: Vec<u16> = Vec::new();
        let mut i: usize = 0;
        while i < w * h
            invariant
                self.wf(),
                *self == *old(self),
                1 <= w <= 1024,
                1 <= h <= 512,
                src_x < 1024 && src_y < 512,
                w * h <= 0x8_0000,
                i <= w * h,
                pixels@.len() == i,
                forall|k: int| 0 <= k < i ==> #[trigger] pixels@[k] == self.vram@[transfer_index(src_x as int, src_y as int, w as int, k)],
            decreases w * h - i,
        {
            pixels.push(self.read_vram_transfer_pixel(src_x, src_y, w, i));
            i += 1;
        }
        let ghost o = *old(self);
        let n = w * h;
        let mut j: usize = 0;
        while j < n
            invariant
                self.wf(),
                *self == (Gpu { vram: self.vram, ..*old(self) }),
                o == *old(self),
                1 <= w <= 1024,
                1 <= h <= 512,
                n == w * h,
                src_x < 1024 && src_y < 512,
                dst_x < 1024 && dst_y < 512,
                n <= 0x8_0000,
                j <= n,
                pixels@.len() == n,
                forall|k: int| 0 <= k < n ==> #[trigger] pixels@[k] == o.vram@[transfer_index(src_x as int, src_y as int, w as int, k)],
                copied_so_far(o.vram@, self.vram@, o.mask_set, o.mask_check, src_x as int, src_y as int, dst_x as int, dst_y as int, w as int, j as int),
            decreases n - j,
        {
            let ghost cur = self.vram@;
            let dx = (dst_x + (j % w)) & (GPU_VRAM_WIDTH - 1);
            let dy = (dst_y + (j / w)) % GPU_VRAM_HEIGHT;
            proof {
                crate::bits::lemma_mask_mod_usize((dst_x + (j % w)) as usize);
            }
            self.write_transfer_pixel(dx, dy, pixels[j]);
            proof {
                lemma_copy_step(o.vram@, cur, self.vram@, o.mask_set, o.mask_check, src_x as int, src_y as int, dst_x as int, dst_y as int, w as int, h as int, j as int);
            }
            j += 1;
        }
    }


}

/// The first `j` pixels of a VRAM-to-VRAM copy, `w` pixels wide from
/// (sx, sy) to (dx, dy), have landed in `cur`, and every pixel none of them
/// lands on is as it was in `before`.
pub open spec fn copied_so_far(
    before: Seq<u16>,
    cur: Seq<u16>,
    mask_set: bool,
    mask_check: bool,
    sx: int,
    sy: int,
    dx: int,
    dy: int,
    w: int,
    j: int,
) -> bool {
    &&& cur.len() == before.len()
    &&& forall|k: int|
        0 <= k < j ==> #[trigger] cur[transfer_index(dx, dy, w, k)] == copy_value(
            before,
            mask_set,
            mask_check,
            transfer_index(sx, sy, w, k),
            transfer_index(dx, dy, w, k),
        )
    &&& forall|i: int|
        0 <= i < before.len() && (forall|k: int| 0 <= k < j ==> #[trigger] transfer_index(dx, dy, w, k) != i)
            ==> #[trigger] cur[i] == before[i]
}

proof fn lemma_copy_step(
    before: Seq<u16>,
    cur: Seq<u16>,
    next: Seq<u16>,
    mask_set: bool,
    mask_check: bool,
    sx: int,
    sy: int,
    dx: int,
    dy: int,
    w: int,
    h: int,
    j: int,
)
    requires
        before.len() == 0x8_0000,
        0 <= sx < 1024 && 0 <= sy < 512 && 0 <= dx < 1024 && 0 <= dy < 512,
        1 <= w <= 1024 && 1 <= h <= 512,
        0 <= j < w * h,
        copied_so_far(before, cur, mask_set, mask_check, sx, sy, dx, dy, w, j),
        next == super::transfer_pixel_spec(cur, mask_set, mask_check, transfer_index(dx, dy, w, j), before[transfer_index(sx, sy, w, j)]),
    ensures
        copied_so_far(before, next, mask_set, mask_check, sx, sy, dx, dy, w, j + 1),
{
    let d = transfer_index(dx, dy, w, j);
    assert forall|k: int| 0 <= k < j implies transfer_index(dx, dy, w, k) != d by {
        super::lemma_transfer_index_distinct(dx, dy, w, h, k, j);
    }
    lemma_vram_index((dx + j % w) % 1024, (dy + j / w) % 512);
    assert(cur[d] == before[d]);
    assert forall|i: int|
        0 <= i < before.len() && (forall|k: int| 0 <= k < j + 1 ==> #[trigger] transfer_index(dx, dy, w, k) != i) implies
        #[trigger] next[i] == before[i] by {
        assert(transfer_index(dx, dy, w, j) != i);
    }
}

/// Bresenham's running error after `i` steps along x and `j` along y of a
/// line `dxa` by `dya` pixels.
#[verifier::opaque]
pub open spec fn line_error(dxa: int, dya: int, i: int, j: int) -> int {
    dxa * (1 + j) - dya * (1 + i)
}

/// The running error starts at dxa - dya, loses dya with each step along x
/// and gains dxa with each step along y, and stays within the bounds of a
/// line at most 1023 by 511 pixels.
pub proof fn lemma_line_error(dxa: int, dya: int, i: int, j: int)
    requires
        0 <= i <= dxa <= 1023,
        0 <= j <= dya <= 511,
    ensures
        line_error(dxa, dya, 0, 0) == dxa - dya,
        line_error(dxa, dya, i + 1, j) == line_error(dxa, dya, i, j) - dya,
        line_error(dxa, dya, i, j + 1) == line_error(dxa, dya, i, j) + dxa,
        -511 * 1024 <= line_error(dxa, dya, i, j) <= 1023 * 512,
{
    reveal(line_error);
    assert(0 <= dxa * (1 + j) <= 1023 * 512) by (nonlinear_arith)
        requires
            0 <= dxa <= 1023,
            0 <= j <= 511,
    ;
    assert(0 <= dya * (1 + i) <= 511 * 1024) by (nonlinear_arith)
        requires
            0 <= dya <= 511,
            0 <= i <= 1023,
    ;
    assert(dya * (1 + (i + 1)) == dya * (1 + i) + dya) by (nonlinear_arith);
    assert(dxa * (1 + (j + 1)) == dxa * (1 + j) + dxa) by (nonlinear_arith);
}

/// Facts about one Bresenham step of a line with |dx| = `dxa` and
/// |dy| = `dya`, after `i` steps in x and `j` in y: a step in x is only
/// taken before x reaches its end, likewise for y, and at least one of the
/// two is taken while the end has not been reached.
pub proof fn lemma_bresenham_step(dxa: int, dya: int, i: int, j: int)
    requires
        0 <= i <= dxa,
        0 <= j <= dya,
        !(i == dxa && j == dya),
    ensures
        ({
            let err = line_error(dxa, dya, i, j);
            &&& 2 * err >= -dya ==> i < dxa
            &&& 2 * err <= dxa ==> j < dya
            &&& 2 * err >= -dya || 2 * err <= dxa
        }),
{
    reveal(line_error);
    assert({
        let err = dxa * (1 + j) - dya * (1 + i);
        &&& 2 * err >= -dya ==> i < dxa
        &&& 2 * err <= dxa ==> j < dya
        &&& 2 * err >= -dya || 2 * err <= dxa
    }) by (nonlinear_arith)
        requires
            0 <= i <= dxa,
            0 <= j <= dya,
            !(i == dxa && j == dya),
    ;
}

/// The length of a line along one axis.
pub open spec fn line_span(a: i32, b: i32) -> int {
    if b >= a { b - a } else { a - b }
}

/// The VRAM after drawing pixel `step` of a line, `i` pixels along x and
/// `j` along y from `start`, its colour interpolated when shaded.
#[verifier::opaque]
pub open spec fn line_pixel(
    g: DrawRegs,
    vram: Seq<u16>,
    start: Vertex,
    end: Vertex,
    gouraud: bool,
    semi: bool,
    i: int,
    j: int,
    step: int,
) -> Seq<u16> {
    let dxa = line_span(start.x, end.x);
    let dya = line_span(start.y, end.y);
    let x = if start.x < end.x { start.x + i } else { start.x - i };
    let y = if start.y < end.y { start.y + j } else { start.y - j };
    let steps = if dxa >= dya { if dxa >= 1 { dxa } else { 1 } } else { dya };
    let color = if gouraud { line_color_spec(start.color, end.color, step as i32, steps as i32) } else { start.color };
    plot_spec(g, vram, x, y, render_color_spec(g.draw_mode, color, x as i32, y as i32), semi, false)
}

/// One Bresenham step after `i` steps along x and `j` along y of a line
/// `dxa` by `dya` pixels: a step along x when twice the running error is at
/// least -dya, along y when it is at most dxa.
#[verifier::opaque]
pub open spec fn line_next(dxa: int, dya: int, i: int, j: int) -> (int, int) {
    let e2 = 2 * line_error(dxa, dya, i, j);
    (if e2 >= -dya { i + 1 } else { i }, if e2 <= dxa { j + 1 } else { j })
}

/// The VRAM after drawing a line's pixels from the `step`-th on, that pixel
/// lying `i` pixels along x and `j` along y from `start`, until the pixel
/// at `end` has been drawn.
#[verifier::opaque]
pub open spec fn line_from(
    g: DrawRegs,
    vram: Seq<u16>,
    start: Vertex,
    end: Vertex,
    gouraud: bool,
    semi: bool,
    i: int,
    j: int,
    step: int,
) -> Seq<u16>
    decreases (line_span(start.x, end.x) - i) + (line_span(start.y, end.y) - j),
{
    let dxa = line_span(start.x, end.x);
    let dya = line_span(start.y, end.y);
    let drawn = line_pixel(g, vram, start, end, gouraud, semi, i, j, step);
    if !(0 <= i <= dxa && 0 <= j <= dya) || (i == dxa && j == dya) {
        drawn
    } else {
        proof {
            reveal(line_next);
            lemma_bresenham_step(dxa, dya, i, j);
        }
        line_from(g, drawn, start, end, gouraud, semi, line_next(dxa, dya, i, j).0, line_next(dxa, dya, i, j).1, step + 1)
    }
}

/// The last pixel of a line.
proof fn lemma_line_done(g: DrawRegs, vram: Seq<u16>, start: Vertex, end: Vertex, gouraud: bool, semi: bool, step: int)
    ensures
        line_from(g, vram, start, end, gouraud, semi, line_span(start.x, end.x), line_span(start.y, end.y), step)
            == line_pixel(g, vram, start, end, gouraud, semi, line_span(start.x, end.x), line_span(start.y, end.y), step),
{
    reveal(line_from);
}

/// A pixel before the last one, and the rest of the line after it.
proof fn lemma_line_next(g: DrawRegs, vram: Seq<u16>, start: Vertex, end: Vertex, gouraud: bool, semi: bool, i: int, j: int, step: int)
    requires
        0 <= i <= line_span(start.x, end.x),
        0 <= j <= line_span(start.y, end.y),
        !(i == line_span(start.x, end.x) && j == line_span(start.y, end.y)),
    ensures
        ({
            let (ni, nj) = line_next(line_span(start.x, end.x), line_span(start.y, end.y), i, j);
            line_from(g, vram, start, end, gouraud, semi, i, j, step) == line_from(
                g,
                line_pixel(g, vram, start, end, gouraud, semi, i, j, step),
                start,
                end,
                gouraud,
                semi,
                ni,
                nj,
                step + 1,
            )
        }),
{
    reveal(line_from);
}

/// The VRAM after a line: Bresenham's walk from `start` to `end` inclusive;
/// a line longer than 1023 by 511 pixels draws nothing.
pub open spec fn draw_line_spec(g: DrawRegs, vram: Seq<u16>, start: Vertex, end: Vertex, gouraud: bool, semi: bool) -> Seq<u16> {
    if line_span(start.x, end.x) > 1023 || line_span(start.y, end.y) > 511 {
        vram
    } else {
        line_from(g, vram, start, end, gouraud, semi, 0, 0, 0)
    }
}

impl Gpu {
    /// Draws pixel `step` of a line, `i` pixels along x and `j` along y from
    /// `start`, at (x, y).
    fn draw_line_pixel(
        &mut self,
        start: Vertex,
        end: Vertex,
        gouraud: bool,
        semi_transparent: bool,
        Ghost(i): Ghost<int>,
        Ghost(j): Ghost<int>,
        x: i32,
        y: i32,
        step: i32,
        steps: i32,
    )
        requires
            old(self).wf(),
            x == (if start.x < end.x { start.x + i } else { start.x - i }),
            y == (if start.y < end.y { start.y + j } else { start.y - j }),
            ({
                let dxa = line_span(start.x, end.x);
                let dya = line_span(start.y, end.y);
                steps == (if dxa >= dya { if dxa >= 1 { dxa } else { 1 } } else { dya })
            }),
            0 <= step <= 0x1_0000,
            0 < steps,
        ensures
            final(self).wf(),
            final(self).vram@ == line_pixel(old(self).draw_regs(), old(self).vram@, start, end, gouraud, semi_transparent, i, j, step as int),
            final(self).clipped_since(old(self).vram@),
            *final(self) == (Gpu { vram: final(self).vram, ..*old(self) }),
    {
        reveal(line_pixel);
        let color = if gouraud {
            interpolate_line_color(start.color, end.color, step, steps)
        } else {
            start.color
        };
        let pixel = self.render_color(color, x, y);
        self.write_render_pixel(x, y, pixel, semi_transparent, false);
    }

    /// Draws a line from `start` to `end` inclusive with Bresenham's method,
    /// flat or with the colour interpolated along it.  Lines longer than
    /// 1023 by 511 pixels are dropped.
    pub(crate) fn draw_line(&mut self, start: Vertex, end: Vertex, gouraud: bool, semi_transparent: bool)
        requires
            old(self).wf(),
            vertex_ok(start),
            vertex_ok(end),
        ensures
            final(self).wf(),
            final(self).vram@ == draw_line_spec(old(self).draw_regs(), old(self).vram@, start, end, gouraud, semi_transparent),
            final(self).clipped_since(old(self).vram@),
            *final(self) == (Gpu { vram: final(self).vram, ..*old(self) }),
    {
        let ghost g = old(self).draw_regs();
        let ghost target = draw_line_spec(g, old(self).vram@, start, end, gouraud, semi_transparent);
        let dxa = if end.x >= start.x { end.x - start.x } else { start.x - end.x };
        let dya = if end.y >= start.y { end.y - start.y } else { start.y - end.y };
        if dxa > 1023 || dya > 511 {
            return;
        }
        let dy = -dya;
        let steps = if dxa >= dya { if dxa >= 1 { dxa } else { 1 } } else { dya };
        let sx: i32 = if start.x < end.x { 1 } else { -1 };
        let sy: i32 = if start.y < end.y { 1 } else { -1 };
        let mut err = dxa + dy;
        let mut x = start.x;
        let mut y = start.y;
        let mut step: i32 = 0;
        let ghost mut i: int = 0;
        let ghost mut j: int = 0;
        proof {
            lemma_line_error(dxa as int, dya as int, 0, 0);
        }
        loop
            invariant_except_break
                line_from(g, self.vram@, start, end, gouraud, semi_transparent, i, j, step as int) == target,
            invariant
                self.wf(),
                self.clipped_since(old(self).vram@),
                *self == (Gpu { vram: self.vram, ..*old(self) }),
                g == old(self).draw_regs(),
                steps == (if dxa >= dya { if dxa >= 1 { dxa } else { 1 } } else { dya }),
                vertex_ok(start),
                vertex_ok(end),
                0 <= dxa <= 1023,
                0 <= dya <= 511,
                dy == -dya,
                steps >= 1,
                dxa == (if end.x >= start.x { end.x - start.x } else { start.x - end.x }),
                dya == (if end.y >= start.y { end.y - start.y } else { start.y - end.y }),
                sx == (if start.x < end.x { 1i32 } else { -1i32 }),
                sy == (if start.y < end.y { 1i32 } else { -1i32 }),
                0 <= i <= dxa,
                0 <= j <= dya,
                x == (if start.x < end.x { start.x + i } else { start.x - i }),
                y == (if start.y < end.y { start.y + j } else { start.y - j }),
                err == line_error(dxa as int, dya as int, i, j),
                0 <= step <= i + j,
            ensures
                self.vram@ == target,
            decreases (dxa - i) + (dya - j),
        {
            let ghost cur = self.vram@;
            self.draw_line_pixel(start, end, gouraud, semi_transparent, Ghost(i), Ghost(j), x, y, step, steps);
            let ghost drawn = self.vram@;
            let ghost next = line_next(dxa as int, dya as int, i, j);
            if x == end.x && y == end.y {
                proof {
                    lemma_line_done(g, cur, start, end, gouraud, semi_transparent, step as int);
                }
                break;
            }
            proof {
                lemma_line_next(g, cur, start, end, gouraud, semi_transparent, i, j, step as int);
                lemma_bresenham_step(dxa as int, dya as int, i, j);
                lemma_line_error(dxa as int, dya as int, i, j);
            }
            assert(next == (if err * 2 >= dy { i + 1 } else { i }, if err * 2 <= dxa { j + 1 } else { j })) by {
                reveal(line_next);
            }
            let err2 = err * 2;
            if err2 >= dy {
                err = err + dy;
                x = x + sx;
                proof {
                    i = i + 1;
                }
            }
            if err2 <= dxa {
                proof {
                    lemma_line_error(dxa as int, dya as int, i, j);
                }
                err = err + dxa;
                y = y + sy;
                proof {
                    j = j + 1;
                }
            }
            step = step + 1;
        }
    }
}

/// The VRAM after a single-line packet: from the first vertex in the
/// command's colour to the second, in its own colour when shaded.
pub open spec fn render_line_packet_spec(g: DrawRegs, vram: Seq<u16>, words: Seq<u32>) -> Seq<u16> {
    let command = (words[0] >> 24u32) as u8;
    let gouraud = command & 0x10 != 0;
    let (x0, y0) = vertex_position(g, words[1]);
    let (x1, y1) = vertex_position(g, words[if gouraud { 3int } else { 2int }]);
    let start = Vertex { x: x0 as i32, y: y0 as i32, u: 0, v: 0, color: words[0] & 0x00ff_ffff };
    let end = Vertex {
        x: x1 as i32,
        y: y1 as i32,
        u: 0,
        v: 0,
        color: if gouraud { words[2] & 0x00ff_ffff } else { words[0] & 0x00ff_ffff },
    };
    draw_line_spec(g, vram, start, end, gouraud, command & 0x02 != 0)
}

/// How many vertices a polyline's words hold: one per word, or one per
/// colour and vertex pair when shaded (a trailing colour is ignored).
pub open spec fn polyline_len(words: Seq<u32>, gouraud: bool) -> int {
    if gouraud { (words.len() / 2) as int } else { words.len() as int }
}

/// Vertex `k` of a polyline, in the command's colour or, when shaded, in
/// the colour word before it.
pub open spec fn polyline_point(g: DrawRegs, command: u32, words: Seq<u32>, gouraud: bool, k: int) -> Vertex {
    let (x, y) = vertex_position(g, if gouraud { words[2 * k + 1] } else { words[k] });
    Vertex {
        x: x as i32,
        y: y as i32,
        u: 0,
        v: 0,
        color: if gouraud { words[2 * k] & 0x00ff_ffff } else { command & 0x00ff_ffff },
    }
}

/// The VRAM after the lines joining the first `k` vertices of a polyline.
pub open spec fn polyline_draw(g: DrawRegs, vram: Seq<u16>, command: u32, words: Seq<u32>, gouraud: bool, k: int) -> Seq<u16>
    decreases k,
{
    if k <= 1 {
        vram
    } else {
        draw_line_spec(
            g,
            polyline_draw(g, vram, command, words, gouraud, k - 1),
            polyline_point(g, command, words, gouraud, k - 2),
            polyline_point(g, command, words, gouraud, k - 1),
            gouraud,
            (command >> 24u32) & 0x02 != 0,
        )
    }
}

impl Gpu {
    /// GP0(60h-7Fh): a rectangle, flat or textured, of variable or fixed
    /// size; the texture may be flipped by the texture page's flip bits.
    pub(crate) fn render_rectangle(&mut self, words: &Vec<u32>)
        requires
            old(self).wf(),
            words@.len() == super::rectangle_word_count_spec((words@[0] >> 24u32) as u8),
        ensures
            final(self).wf(),
            final(self).vram@ == render_rectangle_spec(old(self).draw_regs(), old(self).vram@, words@),
            final(self).clipped_since(old(self).vram@),
            *final(self) == (Gpu { vram: final(self).vram, ..*old(self) }),
    {
        proof {
            crate::bits::lemma_gpu_fields(words@[0]);
        }
        let ghost g = old(self).draw_regs();
        let ghost plot = rectangle_plot(g, words@);
        let command = (words[0] >> 24u32) as u8;
        let textured = (command & 0x04) != 0;
        let semi_transparent = (command & 0x02) != 0;
        let raw_texture = (command & 0x01) != 0;
        let size_code = (command >> 3u8) & 0x03;
        let mut index: usize = 1;
        let (x, y) = self.decode_vertex(words[index]);
        index += 1;
        let mut u: i32 = 0;
        let mut v: i32 = 0;
        let mut clut: u16 = 0;
        if textured {
            let uv = words[index];
            index += 1;
            u = (uv & 0xff) as i32;
            v = ((uv >> 8u32) & 0xff) as i32;
            clut = (uv >> 16u32) as u16;
        }
        let (width, height): (i32, i32) = if size_code == 0 {
            let wh = words[index];
            ((wh & 0xffff) as i32, ((wh >> 16u32) & 0xffff) as i32)
        } else if size_code == 1 {
            (1, 1)
        } else if size_code == 2 {
            (8, 8)
        } else {
            (16, 16)
        };
        assert(rectangle_size(words@) == (width as int, height as int));
        if width <= 0 || height <= 0 || width > 1023 || height > 511 {
            return;
        }
        let base_color = words[0] & 0x00ff_ffff;
        let flip_x = (self.draw_mode & 0x1000) != 0;
        let flip_y = (self.draw_mode & 0x2000) != 0;
        proof {
            lemma_raster_start(old(self).vram@, 0, width - 1, 0, plot);
        }
        let mut dy: i32 = 0;
        while dy < height
            invariant
                self.wf(),
                self.clipped_since(old(self).vram@),
                *self == (Gpu { vram: self.vram, ..*old(self) }),
                g == old(self).draw_regs(),
                plot == rectangle_plot(g, words@),
                self.vram@ == raster(old(self).vram@, 0, width - 1, 0, dy as int, 0, plot),
                words@.len() == super::rectangle_word_count_spec(command),
                command == (words@[0] >> 24u32) as u8,
                textured == (command & 0x04 != 0),
                semi_transparent == (command & 0x02 != 0),
                raw_texture == (command & 0x01 != 0),
                (x as int, y as int) == vertex_position(g, words@[1]),
                textured ==> u == (words@[2] & 0xff) && v == ((words@[2] >> 8u32) & 0xff) && clut == (words@[2] >> 16u32) as u16,
                base_color == words@[0] & 0x00ff_ffff,
                flip_x == (g.draw_mode & 0x1000 != 0),
                flip_y == (g.draw_mode & 0x2000 != 0),
                0 < height <= 511,
                0 < width <= 1023,
                -0x8400 <= x <= 0x83ff,
                -0x8400 <= y <= 0x83ff,
                0 <= u <= 255,
                0 <= v <= 255,
                0 <= dy <= height,
            decreases height - dy,
        {
            let mut dx: i32 = 0;
            while dx < width
                invariant
                    self.wf(),
                    self.clipped_since(old(self).vram@),
                    *self == (Gpu { vram: self.vram, ..*old(self) }),
                    g == old(self).draw_regs(),
                    plot == rectangle_plot(g, words@),
                    self.vram@ == raster(old(self).vram@, 0, width - 1, 0, dy as int, dx as int, plot),
                    words@.len() == super::rectangle_word_count_spec(command),
                    command == (words@[0] >> 24u32) as u8,
                    textured == (command & 0x04 != 0),
                    semi_transparent == (command & 0x02 != 0),
                    raw_texture == (command & 0x01 != 0),
                    (x as int, y as int) == vertex_position(g, words@[1]),
                    textured ==> u == (words@[2] & 0xff) && v == ((words@[2] >> 8u32) & 0xff) && clut == (words@[2] >> 16u32) as u16,
                    base_color == words@[0] & 0x00ff_ffff,
                    flip_x == (g.draw_mode & 0x1000 != 0),
                    flip_y == (g.draw_mode & 0x2000 != 0),
                    0 < width <= 1023,
                    0 <= dy < height <= 511,
                    -0x8400 <= x <= 0x83ff,
                    -0x8400 <= y <= 0x83ff,
                    0 <= u <= 255,
                    0 <= v <= 255,
                    0 <= dx <= width,
                decreases width - dx,
            {
                let ghost prev = self.vram@;
                let tex_u = if flip_x { u - dx } else { u + dx };
                let tex_v = if flip_y { v - dy } else { v + dy };
                if textured {
                    let sample = self.sample_texture(TextureSample {
                        u: tex_u,
                        v: tex_v,
                        clut,
                        texpage: self.draw_mode,
                        raw_texture,
                        shade: base_color,
                        screen_x: x + dx,
                        screen_y: y + dy,
                    });
                    match sample {
                        Some((texel, transparent)) => {
                            if !transparent {
                                self.write_render_pixel(x + dx, y + dy, texel, semi_transparent, textured);
                            }
                        },
                        None => {},
                    }
                } else {
                    let color = self.render_color(base_color, x + dx, y + dy);
                    self.write_render_pixel(x + dx, y + dy, color, semi_transparent, textured);
                }
                proof {
                    lemma_raster_next(old(self).vram@, 0, width - 1, 0, dy as int, dx as int, plot);
                }
                assert(self.vram@ == rectangle_pixel(g, prev, words@, dx as int, dy as int));
                dx += 1;
            }
            proof {
                lemma_raster_next_row(old(self).vram@, 0, width - 1, 0, dy as int, plot);
            }
            dy += 1;
        }
    }

    /// GP0(20h-3Fh): a triangle or a quad (drawn as two triangles), flat or
    /// shaded, textured or not.  The second vertex's texture word carries
    /// the texture page.
    pub(crate) fn render_polygon(&mut self, words: &Vec<u32>)
        requires
            old(self).wf(),
            words@.len() == super::polygon_word_count_spec((words@[0] >> 24u32) as u8),
        ensures
            final(self).wf(),
            final(self).vram@ == render_polygon_spec(old(self).draw_regs(), old(self).vram@, words@),
            final(self).clipped_since(old(self).vram@),
            *final(self) == (Gpu { vram: final(self).vram, ..*old(self) }),
    {
        let ghost g = old(self).draw_regs();
        proof {
            crate::bits::lemma_gpu_fields(words@[0]);
        }
        let command = (words[0] >> 24u32) as u8;
        let gouraud = (command & 0x10) != 0;
        let quad = (command & 0x08) != 0;
        let textured = (command & 0x04) != 0;
        let semi_transparent = (command & 0x02) != 0;
        let raw_texture = (command & 0x01) != 0;
        let vertex_count: usize = if quad { 4 } else { 3 };
        let per_vertex: usize = if textured { 2 } else { 1 };
        let blank = Vertex { x: 0, y: 0, u: 0, v: 0, color: 0 };
        let mut vertices = [blank; 4];
        let mut color = words[0] & 0x00ff_ffff;
        let mut index: usize = 1;
        let mut clut: u16 = 0;
        let mut texpage = self.draw_mode;
        let mut vertex_index: usize = 0;
        while vertex_index < vertex_count
            invariant
                self.wf(),
                *self == *old(self),
                words@.len() == 1 + vertex_count * per_vertex + (if gouraud { vertex_count - 1 } else { 0 }),
                vertex_count == 3 || vertex_count == 4,
                per_vertex == (if textured { 2usize } else { 1usize }),
                vertex_index <= vertex_count,
                index == 1 + vertex_index * per_vertex + (if gouraud && vertex_index > 0 { vertex_index - 1 } else { 0 }),
                forall|k: int| 0 <= k < vertex_index ==> vertex_ok(#[trigger] vertices[k]),
                forall|k: int| 0 <= k < vertex_index ==> #[trigger] vertices[k] == polygon_vertex(g, words@, k),
                g == old(self).draw_regs(),
                command == (words@[0] >> 24u32) as u8,
                gouraud == (command & 0x10 != 0),
                quad == (command & 0x08 != 0),
                textured == (command & 0x04 != 0),
                !gouraud || vertex_index == 0 ==> color == words@[0] & 0x00ff_ffff,
                textured && vertex_index > 0 ==> clut == (words@[polygon_vertex_word(command, 0) + 1] >> 16u32) as u16,
                !textured ==> clut == 0,
                textured && vertex_index > 1 ==> texpage == (g.draw_mode & !0x09ffu16) | ((words@[polygon_vertex_word(command, 1) + 1] >> 16u32) as u16 & 0x09ff),
                !(textured && vertex_index > 1) ==> texpage == g.draw_mode,
            decreases vertex_count - vertex_index,
        {
            if gouraud && vertex_index != 0 {
                color = words[index] & 0x00ff_ffff;
                index += 1;
            }
            let (x, y) = self.decode_vertex(words[index]);
            index += 1;
            let mut u: i32 = 0;
            let mut v: i32 = 0;
            if textured {
                let uv = words[index];
                index += 1;
                u = (uv & 0xff) as i32;
                v = ((uv >> 8u32) & 0xff) as i32;
                if vertex_index == 0 {
                    clut = (uv >> 16u32) as u16;
                } else if vertex_index == 1 {
                    texpage = (texpage & !0x09ffu16) | ((uv >> 16u32) as u16 & 0x09ff);
                }
            }
            vertices[vertex_index] = Vertex { x, y, u, v, color };
            vertex_index += 1;
        }
        let style = PolygonStyle {
            textured,
            gouraud,
            semi_transparent,
            raw_texture,
            clut,
            texpage,
            flat_color: words[0] & 0x00ff_ffff,
        };
        self.render_triangle([vertices[0], vertices[1], vertices[2]], style);
        if quad {
            self.render_triangle([vertices[1], vertices[2], vertices[3]], style);
        }
    }

    /// Fills the pixels whose centres lie inside or on the triangle's edges,
    /// within the drawing area.  Degenerate triangles and ones wider than
    /// 1023 or taller than 511 pixels are dropped.
    pub(crate) fn render_triangle(&mut self, vertices: [Vertex; 3], style: PolygonStyle)
        requires
            old(self).wf(),
            vertex_ok(vertices[0]) && vertex_ok(vertices[1]) && vertex_ok(vertices[2]),
        ensures
            final(self).wf(),
            final(self).vram@ == render_triangle_spec(old(self).draw_regs(), old(self).vram@, vertices[0], vertices[1], vertices[2], style),
            final(self).clipped_since(old(self).vram@),
            *final(self) == (Gpu { vram: final(self).vram, ..*old(self) }),
    {
        let ghost g = old(self).draw_regs();
        let ghost plot = triangle_plot(g, vertices[0], vertices[1], vertices[2], style);
        let v0 = vertices[0];
        let v1 = vertices[1];
        let v2 = vertices[2];
        let vmin_x = if v0.x <= v1.x && v0.x <= v2.x { v0.x } else if v1.x <= v2.x { v1.x } else { v2.x };
        let vmax_x = if v0.x >= v1.x && v0.x >= v2.x { v0.x } else if v1.x >= v2.x { v1.x } else { v2.x };
        let vmin_y = if v0.y <= v1.y && v0.y <= v2.y { v0.y } else if v1.y <= v2.y { v1.y } else { v2.y };
        let vmax_y = if v0.y >= v1.y && v0.y >= v2.y { v0.y } else if v1.y >= v2.y { v1.y } else { v2.y };
        assert(vmin_x == min3(v0.x as int, v1.x as int, v2.x as int) && vmax_x == max3(v0.x as int, v1.x as int, v2.x as int));
        assert(vmin_y == min3(v0.y as int, v1.y as int, v2.y as int) && vmax_y == max3(v0.y as int, v1.y as int, v2.y as int));
        let (min_x, max_x, min_y, max_y) = self.clip_box(vmin_x, vmax_x, vmin_y, vmax_y);
        if min_x > max_x || min_y > max_y {
            assert(triangle_dropped(g, v0, v1, v2));
            return;
        }
        if max_vertex_delta([v0.x, v1.x, v2.x]) > 1023 || max_vertex_delta([v0.y, v1.y, v2.y]) > 511 {
            assert(triangle_dropped(g, v0, v1, v2));
            return;
        }
        let area = edge(v0, v1, v2.x, v2.y);
        if area == 0 {
            assert(triangle_dropped(g, v0, v1, v2));
            return;
        }
        assert(!triangle_dropped(g, v0, v1, v2));
        proof {
            lemma_edge_bound(v0, v1, v2.x as int, v2.y as int, vmin_x as int, vmax_x as int, vmin_y as int, vmax_y as int);
        }
        let sign: i64 = if area > 0 { 1 } else { -1 };
        let area_abs: i64 = if area > 0 { area } else { -area };
        proof {
            lemma_raster_start(old(self).vram@, min_x as int, max_x as int, min_y as int, plot);
        }
        let mut y = min_y;
        while y <= max_y
            invariant
                self.wf(),
                self.clipped_since(old(self).vram@),
                *self == (Gpu { vram: self.vram, ..*old(self) }),
                self.vram@ == raster(old(self).vram@, min_x as int, max_x as int, min_y as int, y as int, min_x as int, plot),
                g == old(self).draw_regs(),
                plot == triangle_plot(g, v0, v1, v2, style),
                v0 == vertices[0] && v1 == vertices[1] && v2 == vertices[2],
                area == edge_spec(v0, v1, v2.x as int, v2.y as int),
                area_abs == (if area > 0 { area as int } else { -area }),
                sign == (if area > 0 { 1i64 } else { -1i64 }),

                vertex_ok(v0) && vertex_ok(v1) && vertex_ok(v2),
                vmin_x <= v0.x <= vmax_x && vmin_x <= v1.x <= vmax_x && vmin_x <= v2.x <= vmax_x,
                vmin_y <= v0.y <= vmax_y && vmin_y <= v1.y <= vmax_y && vmin_y <= v2.y <= vmax_y,
                vmax_x - vmin_x <= 1023,
                vmax_y - vmin_y <= 511,
                vmin_x <= min_x <= max_x <= vmax_x,
                vmin_y <= min_y <= max_y <= vmax_y,
                0 <= min_x && max_x <= 1023 && 0 <= min_y && max_y <= 511,
                min_y <= y <= max_y + 1,
                sign == 1 || sign == -1,
                0 < area_abs <= 0x1_0000_0000,
            decreases max_y + 1 - y,
        {
            let mut x = min_x;
            while x <= max_x
                invariant
                    self.wf(),
                    self.clipped_since(old(self).vram@),
                    *self == (Gpu { vram: self.vram, ..*old(self) }),
                    self.vram@ == raster(old(self).vram@, min_x as int, max_x as int, min_y as int, y as int, x as int, plot),
                    g == old(self).draw_regs(),
                    plot == triangle_plot(g, v0, v1, v2, style),
                    v0 == vertices[0] && v1 == vertices[1] && v2 == vertices[2],
                    area == edge_spec(v0, v1, v2.x as int, v2.y as int),
                    area_abs == (if area > 0 { area as int } else { -area }),
                    sign == (if area > 0 { 1i64 } else { -1i64 }),

                    vertex_ok(v0) && vertex_ok(v1) && vertex_ok(v2),
                    vmin_x <= v0.x <= vmax_x && vmin_x <= v1.x <= vmax_x && vmin_x <= v2.x <= vmax_x,
                    vmin_y <= v0.y <= vmax_y && vmin_y <= v1.y <= vmax_y && vmin_y <= v2.y <= vmax_y,
                    vmax_x - vmin_x <= 1023,
                    vmax_y - vmin_y <= 511,
                    vmin_x <= min_x <= max_x <= vmax_x,
                    min_y <= y <= max_y,
                    vmin_y <= min_y <= max_y <= vmax_y,
                    0 <= min_x && max_x <= 1023 && 0 <= y <= 511,
                    min_x <= x <= max_x + 1,
                    sign == 1 || sign == -1,
                    0 < area_abs <= 0x1_0000_0000,
                decreases max_x + 1 - x,
            {
                let ghost prev = self.vram@;
                proof {
                    lemma_edge_bound(v1, v2, x as int, y as int, vmin_x as int, vmax_x as int, vmin_y as int, vmax_y as int);
                    lemma_edge_bound(v2, v0, x as int, y as int, vmin_x as int, vmax_x as int, vmin_y as int, vmax_y as int);
                    lemma_edge_bound(v0, v1, x as int, y as int, vmin_x as int, vmax_x as int, vmin_y as int, vmax_y as int);
                }
                self.draw_triangle_pixel(v0, v1, v2, style, sign, area_abs, x, y);
                proof {
                    lemma_raster_next(old(self).vram@, min_x as int, max_x as int, min_y as int, y as int, x as int, plot);
                }
                assert(self.vram@ == triangle_pixel(g, prev, v0, v1, v2, style, x as int, y as int));
                x += 1;
            }
            proof {
                lemma_raster_next_row(old(self).vram@, min_x as int, max_x as int, min_y as int, y as int, plot);
            }
            y += 1;
        }
    }

    /// A box clipped to the drawing area and to VRAM.
    fn clip_box(&self, vmin_x: i32, vmax_x: i32, vmin_y: i32, vmax_y: i32) -> (r: (i32, i32, i32, i32))
        ensures
            ({
                let x0 = if vmin_x < self.draw_area_x1 { self.draw_area_x1 as int } else { vmin_x as int };
                let x1 = if vmax_x > self.draw_area_x2 { self.draw_area_x2 as int } else { vmax_x as int };
                let y0 = if vmin_y < self.draw_area_y1 { self.draw_area_y1 as int } else { vmin_y as int };
                let y1 = if vmax_y > self.draw_area_y2 { self.draw_area_y2 as int } else { vmax_y as int };
                &&& r.0 == (if x0 < 0 { 0 } else { x0 })
                &&& r.1 == (if x1 > 1023 { 1023 } else { x1 })
                &&& r.2 == (if y0 < 0 { 0 } else { y0 })
                &&& r.3 == (if y1 > 511 { 511 } else { y1 })
            }),
            vmin_x <= r.0 && r.1 <= vmax_x && vmin_y <= r.2 && r.3 <= vmax_y,
            0 <= r.0 && r.1 <= 1023 && 0 <= r.2 && r.3 <= 511,
    {
        let mut min_x = vmin_x;
        if min_x < self.draw_area_x1 as i32 { min_x = self.draw_area_x1 as i32; }
        if min_x < 0 { min_x = 0; }
        let mut max_x = vmax_x;
        if max_x > self.draw_area_x2 as i32 { max_x = self.draw_area_x2 as i32; }
        if max_x > (GPU_VRAM_WIDTH - 1) as i32 { max_x = (GPU_VRAM_WIDTH - 1) as i32; }
        let mut min_y = vmin_y;
        if min_y < self.draw_area_y1 as i32 { min_y = self.draw_area_y1 as i32; }
        if min_y < 0 { min_y = 0; }
        let mut max_y = vmax_y;
        if max_y > self.draw_area_y2 as i32 { max_y = self.draw_area_y2 as i32; }
        if max_y > (GPU_VRAM_HEIGHT - 1) as i32 { max_y = (GPU_VRAM_HEIGHT - 1) as i32; }
        (min_x, max_x, min_y, max_y)
    }

    /// Visits pixel (x, y) of a triangle's bounding box.
    fn draw_triangle_pixel(&mut self, v0: Vertex, v1: Vertex, v2: Vertex, style: PolygonStyle, sign: i64, area_abs: i64, x: i32, y: i32)
        requires
            old(self).wf(),
            vertex_ok(v0) && vertex_ok(v1) && vertex_ok(v2),
            0 <= x <= 1023 && 0 <= y <= 511,
            -0x10_0000 <= edge_spec(v1, v2, x as int, y as int) <= 0x10_0000,
            -0x10_0000 <= edge_spec(v2, v0, x as int, y as int) <= 0x10_0000,
            -0x10_0000 <= edge_spec(v0, v1, x as int, y as int) <= 0x10_0000,
            sign == (if edge_spec(v0, v1, v2.x as int, v2.y as int) > 0 { 1i64 } else { -1i64 }),
            area_abs == (if edge_spec(v0, v1, v2.x as int, v2.y as int) > 0 {
                edge_spec(v0, v1, v2.x as int, v2.y as int)
            } else {
                -edge_spec(v0, v1, v2.x as int, v2.y as int)
            }),
            0 < area_abs <= 0x1_0000_0000,
        ensures
            final(self).wf(),
            final(self).vram@ == triangle_pixel(old(self).draw_regs(), old(self).vram@, v0, v1, v2, style, x as int, y as int),
            final(self).clipped_since(old(self).vram@),
            *final(self) == (Gpu { vram: final(self).vram, ..*old(self) }),
    {
        let e0 = edge(v1, v2, x, y);
        let e1 = edge(v2, v0, x, y);
        let e2 = edge(v0, v1, x, y);
        let (w0, w1, w2) = if sign > 0 { (e0, e1, e2) } else { (-e0, -e1, -e2) };
        if w0 >= 0 && w1 >= 0 && w2 >= 0 {
            let shade = if style.gouraud {
                interpolate_rgb24(v0.color, v1.color, v2.color, w0, w1, w2, area_abs)
            } else {
                style.flat_color
            };
            if style.textured {
                let u = interpolate_i32(v0.u, v1.u, v2.u, w0, w1, w2, area_abs);
                let v = interpolate_i32(v0.v, v1.v, v2.v, w0, w1, w2, area_abs);
                let sample = self.sample_texture(TextureSample {
                    u,
                    v,
                    clut: style.clut,
                    texpage: style.texpage,
                    raw_texture: style.raw_texture,
                    shade,
                    screen_x: x,
                    screen_y: y,
                });
                match sample {
                    Some((texel, transparent)) => {
                        if !transparent {
                            self.write_render_pixel(x, y, texel, style.semi_transparent, style.textured);
                        }
                    },
                    None => {},
                }
            } else {
                let color = self.render_color(shade, x, y);
                self.write_render_pixel(x, y, color, style.semi_transparent, style.textured);
            }
        }
    }

    /// GP0(40h-5Fh) single lines: two vertices, flat or shaded.
    pub(crate) fn render_line_packet(&mut self, words: &Vec<u32>)
        requires
            old(self).wf(),
            words@.len() == (if ((words@[0] >> 24u32) as u8) & 0x10 != 0 { 4int } else { 3int }),
        ensures
            final(self).wf(),
            final(self).vram@ == render_line_packet_spec(old(self).draw_regs(), old(self).vram@, words@),
            final(self).clipped_since(old(self).vram@),
            *final(self) == (Gpu { vram: final(self).vram, ..*old(self) }),
    {
        proof {
            crate::bits::lemma_gpu_fields(words@[0]);
        }
        let command = (words[0] >> 24u32) as u8;
        let gouraud = (command & 0x10) != 0;
        let (x0, y0) = self.decode_vertex(words[1]);
        let (color1, vertex1_index) = if gouraud {
            (words[2] & 0x00ff_ffff, 3usize)
        } else {
            (words[0] & 0x00ff_ffff, 2usize)
        };
        let (x1, y1) = self.decode_vertex(words[vertex1_index]);
        self.draw_line(
            Vertex { x: x0, y: y0, u: 0, v: 0, color: words[0] & 0x00ff_ffff },
            Vertex { x: x1, y: y1, u: 0, v: 0, color: color1 },
            gouraud,
            (command & 0x02) != 0,
        );
    }

    /// A polyline: consecutive vertices (each preceded by its colour when
    /// shaded) joined by lines.
    pub(crate) fn render_polyline(&mut self, command: u32, words: &Vec<u32>, gouraud: bool)
        requires
            old(self).wf(),
        ensures
            final(self).wf(),
            final(self).vram@ == polyline_draw(old(self).draw_regs(), old(self).vram@, command, words@, gouraud, polyline_len(words@, gouraud)),
            final(self).clipped_since(old(self).vram@),
            *final(self) == (Gpu { vram: final(self).vram, ..*old(self) }),
    {
        let ghost g = old(self).draw_regs();
        let mut points: Vec<Vertex> = Vec::new();
        let mut index: usize = 0;
        let mut current_color = command & 0x00ff_ffff;
        while index < words.len()
            invariant
                self.wf(),
                *self == *old(self),
                g == old(self).draw_regs(),
                index <= words@.len(),
                gouraud ==> index == 2 * points@.len() || (index == 2 * points@.len() + 1 && index == words@.len()),
                !gouraud ==> index == points@.len(),
                !gouraud ==> current_color == command & 0x00ff_ffff,
                forall|k: int| 0 <= k < points@.len() ==> vertex_ok(#[trigger] points@[k]),
                forall|k: int| 0 <= k < points@.len() ==> #[trigger] points@[k] == polyline_point(g, command, words@, gouraud, k),
            ensures
                points@.len() == polyline_len(words@, gouraud),
                forall|k: int| 0 <= k < points@.len() ==> vertex_ok(#[trigger] points@[k]),
                forall|k: int| 0 <= k < points@.len() ==> #[trigger] points@[k] == polyline_point(g, command, words@, gouraud, k),
            decreases words@.len() - index,
        {
            if gouraud {
                current_color = words[index] & 0x00ff_ffff;
                index += 1;
                if index >= words.len() {
                    break;
                }
            }
            let (x, y) = self.decode_vertex(words[index]);
            index += 1;
            points.push(Vertex { x, y, u: 0, v: 0, color: current_color });
        }
        let mut k: usize = 1;
        while k < points.len()
            invariant
                self.wf(),
                self.clipped_since(old(self).vram@),
                *self == (Gpu { vram: self.vram, ..*old(self) }),
                g == old(self).draw_regs(),
                points@.len() == polyline_len(words@, gouraud),
                forall|m: int| 0 <= m < points@.len() ==> vertex_ok(#[trigger] points@[m]),
                forall|m: int| 0 <= m < points@.len() ==> #[trigger] points@[m] == polyline_point(g, command, words@, gouraud, m),
                self.vram@ == polyline_draw(g, old(self).vram@, command, words@, gouraud, if points@.len() == 0 { 0 } else { k as int }),
                k >= 1,
                points@.len() == 0 || k <= points@.len(),
            decreases points@.len() - k,
        {
            self.draw_line(points[k - 1], points[k], gouraud, ((command >> 24u32) & 0x02) != 0);
            k += 1;
        }
    }
}

/// An edge function of a pixel inside a triangle's bounding box, when the
/// box is at most 1023 by 511 pixels, fits in 21 bits.
proof fn lemma_edge_bound(a: Vertex, b: Vertex, x: int, y: int, min_x: int, max_x: int, min_y: int, max_y: int)
    requires
        min_x <= a.x <= max_x && min_x <= b.x <= max_x && min_x <= x <= max_x,
        min_y <= a.y <= max_y && min_y <= b.y <= max_y && min_y <= y <= max_y,
        max_x - min_x <= 1023,
        max_y - min_y <= 511,
    ensures
        -0x10_0000 <= edge_spec(a, b, x, y) <= 0x10_0000,
{
    crate::bits::lemma_mul_bounds((b.x - a.x) as int, (y - a.y) as int, 1023, 511);
    crate::bits::lemma_mul_bounds((b.y - a.y) as int, (x - a.x) as int, 511, 1023);
}

} // verus!
