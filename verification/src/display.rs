use vstd::prelude::*;

use crate::font;

verus! {

/// (R, G, B) color
#[derive(Clone, Copy, PartialEq, Eq, Structural, Debug)]
pub struct Color(pub u8, pub u8, pub u8);

/// (x, y) coordinate
#[derive(Clone, Copy, PartialEq, Eq, Structural, Debug)]
pub struct Point(pub usize, pub usize);

/// The channel order a surface expects for each pixel.
#[derive(Clone, Copy, PartialEq, Eq, Structural, Debug)]
pub enum PixelFormat {
    Rgb,
    Bgr,
    U8,
}

/// Geometry and encoding of a linear pixel buffer. `stride` counts whole
/// pixels per row and may exceed `width` for alignment.
#[derive(Clone, Copy, PartialEq, Eq, Structural, Debug)]
pub struct SurfaceInfo {
    pub width: usize,
    pub height: usize,
    pub stride: usize,
    pub bytes_per_pixel: usize,
    pub format: PixelFormat,
}

/// How many leading bytes of a pixel a draw in this format overwrites.
pub open spec fn bytes_of_format(f: PixelFormat) -> int {
    match f {
        PixelFormat::Rgb => 3,
        PixelFormat::Bgr => 3,
        PixelFormat::U8 => 1,
    }
}

/// Averaged intensity used by the single-channel encoding.
pub open spec fn gray_of(c: Color) -> u8 {
    (((c.0 + c.1 + c.2) as int) / 3) as u8
}

/// The bytes one pixel of color `c` occupies, in the surface's channel order.
pub open spec fn encode_color(f: PixelFormat, c: Color) -> Seq<u8> {
    match f {
        PixelFormat::Rgb => seq![c.0, c.1, c.2],
        PixelFormat::Bgr => seq![c.2, c.1, c.0],
        PixelFormat::U8 => seq![gray_of(c)],
    }
}

/// One pixel's bytes after drawing color `c` on it: the encoded channels
/// replace the leading bytes, padding bytes within the pixel are kept.
pub open spec fn pixel_written(p: Seq<u8>, f: PixelFormat, c: Color) -> Seq<u8> {
    encode_color(f, c) + p.skip(bytes_of_format(f))
}

impl SurfaceInfo {
    /// Total bytes in the buffer.
    pub open spec fn area(self) -> int {
        self.stride * self.bytes_per_pixel * self.height
    }

    pub open spec fn wf(self) -> bool {
        &&& 0 < self.width
        &&& 0 < self.height
        &&& self.width <= self.stride
        &&& bytes_of_format(self.format) <= self.bytes_per_pixel
        &&& self.area() <= usize::MAX
    }
}

/// Byte offset of channel `k` of the pixel at column `x`, row `y`.
pub open spec fn byte_offset(info: SurfaceInfo, x: int, y: int, k: int) -> int {
    (y * info.stride + x) * info.bytes_per_pixel + k
}

/// The buffer as a grid: `height` rows of `stride` pixels of
/// `bytes_per_pixel` bytes each.
pub open spec fn grid_of(s: Seq<u8>, info: SurfaceInfo) -> Seq<Seq<Seq<u8>>> {
    Seq::new(
        info.height as nat,
        |y: int|
            Seq::new(
                info.stride as nat,
                |x: int|
                    Seq::new(
                        info.bytes_per_pixel as nat,
                        |k: int| s[byte_offset(info, x, y, k)],
                    ),
            ),
    )
}

/// Grid shape that matches `info`.
pub open spec fn grid_wf(g: Seq<Seq<Seq<u8>>>, info: SurfaceInfo) -> bool {
    &&& g.len() == info.height
    &&& forall|y: int|
        0 <= y < g.len() ==> (#[trigger] g[y]).len() == info.stride && forall|x: int|
            0 <= x < g[y].len() ==> (#[trigger] g[y][x]).len() == info.bytes_per_pixel
}

proof fn lemma_byte_offset_in_range(info: SurfaceInfo, x: int, y: int, k: int)
    requires
        info.wf(),
        0 <= y < info.height,
        0 <= x < info.stride,
        0 <= k < info.bytes_per_pixel,
    ensures
        0 <= byte_offset(info, x, y, k),
        byte_offset(info, x, y, k) < info.area(),
{
    let s = info.stride as int;
    let b = info.bytes_per_pixel as int;
    let h = info.height as int;
    assert(0 <= (y * s + x) * b + k < s * b * h) by (nonlinear_arith)
        requires
            0 <= y < h,
            0 <= x < s,
            0 <= k < b,
    ;
}

proof fn lemma_byte_offset_injective(
    info: SurfaceInfo,
    x1: int,
    y1: int,
    k1: int,
    x2: int,
    y2: int,
    k2: int,
)
    requires
        info.wf(),
        0 <= y1 < info.height,
        0 <= x1 < info.stride,
        0 <= k1 < info.bytes_per_pixel,
        0 <= y2 < info.height,
        0 <= x2 < info.stride,
        0 <= k2 < info.bytes_per_pixel,
        byte_offset(info, x1, y1, k1) == byte_offset(info, x2, y2, k2),
    ensures
        x1 == x2,
        y1 == y2,
        k1 == k2,
{
    let s = info.stride as int;
    let b = info.bytes_per_pixel as int;
    assert(y1 * s + x1 == y2 * s + x2 && k1 == k2) by (nonlinear_arith)
        requires
            (y1 * s + x1) * b + k1 == (y2 * s + x2) * b + k2,
            0 <= k1 < b,
            0 <= k2 < b,
            0 <= x1 < s,
            0 <= x2 < s,
    ;
    assert(y1 == y2 && x1 == x2) by (nonlinear_arith)
        requires
            y1 * s + x1 == y2 * s + x2,
            0 <= x1 < s,
            0 <= x2 < s,
    ;
}

/// Reading one byte of the flat buffer through the grid view.
proof fn lemma_grid_index(s: Seq<u8>, info: SurfaceInfo, x: int, y: int, k: int)
    requires
        info.wf(),
        s.len() == info.area(),
        0 <= y < info.height,
        0 <= x < info.stride,
        0 <= k < info.bytes_per_pixel,
    ensures
        grid_of(s, info)[y][x][k] == s[byte_offset(info, x, y, k)],
        0 <= byte_offset(info, x, y, k) < s.len(),
{
    lemma_byte_offset_in_range(info, x, y, k);
}

pub proof fn lemma_grid_of_wf(s: Seq<u8>, info: SurfaceInfo)
    requires
        info.wf(),
        s.len() == info.area(),
    ensures
        grid_wf(grid_of(s, info), info),
{
}

/// One flat-buffer write seen through the grid view: only the addressed
/// channel of the addressed pixel changes.
proof fn lemma_grid_update(s: Seq<u8>, info: SurfaceInfo, x: int, y: int, k: int, v: u8)
    requires
        info.wf(),
        s.len() == info.area(),
        0 <= y < info.height,
        0 <= x < info.stride,
        0 <= k < info.bytes_per_pixel,
    ensures
        grid_of(s.update(byte_offset(info, x, y, k), v), info) == grid_of(s, info).update(
            y,
            grid_of(s, info)[y].update(x, grid_of(s, info)[y][x].update(k, v)),
        ),
{
    let g = grid_of(s, info);
    let s2 = s.update(byte_offset(info, x, y, k), v);
    let g2 = grid_of(s2, info);
    let target = g.update(y, g[y].update(x, g[y][x].update(k, v)));
    lemma_byte_offset_in_range(info, x, y, k);
    assert forall|y2: int, x2: int, k2: int|
        0 <= y2 < info.height && 0 <= x2 < info.stride && 0 <= k2
            < info.bytes_per_pixel implies g2[y2][x2][k2] == target[y2][x2][k2] by {
        lemma_byte_offset_in_range(info, x2, y2, k2);
        if byte_offset(info, x2, y2, k2) == byte_offset(info, x, y, k) {
            lemma_byte_offset_injective(info, x2, y2, k2, x, y, k);
        }
    }
    assert(g2 =~~= target);
}

/// One channel value scaled by a glyph coverage intensity: the channel is
/// multiplied by the 0-255 intensity and divided by 255.
pub open spec fn scale8(v: u8, i: u8) -> u8 {
    ((v * i) / 255) as u8
}

/// A color scaled channel-wise by a glyph coverage intensity.
pub open spec fn scale_color(c: Color, i: u8) -> Color {
    Color(scale8(c.0, i), scale8(c.1, i), scale8(c.2, i))
}

/// A row of pixels after the columns `[x0, x1)` are filled with `c`.
pub open spec fn fill_row_upto(
    row: Seq<Seq<u8>>,
    f: PixelFormat,
    c: Color,
    x0: int,
    x1: int,
) -> Seq<Seq<u8>> {
    Seq::new(
        row.len(),
        |x: int| if x0 <= x < x1 {
            pixel_written(row[x], f, c)
        } else {
            row[x]
        },
    )
}

/// The grid after the rectangle of pixels `[x0, x1) x [y0, y1)` is filled
/// with `c`.
pub open spec fn fill_rect_grid(
    g: Seq<Seq<Seq<u8>>>,
    f: PixelFormat,
    c: Color,
    x0: int,
    x1: int,
    y0: int,
    y1: int,
) -> Seq<Seq<Seq<u8>>> {
    Seq::new(
        g.len(),
        |y: int| if y0 <= y < y1 {
            fill_row_upto(g[y], f, c, x0, x1)
        } else {
            g[y]
        },
    )
}

/// A row of pixels after one glyph row of coverage intensities is blitted at
/// column `px` in color `color`; columns at or past `w_clip` are never
/// touched.
pub open spec fn blit_row(
    row: Seq<Seq<u8>>,
    f: PixelFormat,
    color: Color,
    intens: Seq<u8>,
    px: int,
    w_clip: int,
) -> Seq<Seq<u8>> {
    Seq::new(
        row.len(),
        |x: int| if px <= x < px + intens.len() && x < w_clip {
            pixel_written(row[x], f, scale_color(color, intens[x - px]))
        } else {
            row[x]
        },
    )
}

/// The grid after a glyph raster is blitted with its top-left pixel at
/// `(px, py)`.
pub open spec fn blit_grid(
    g: Seq<Seq<Seq<u8>>>,
    f: PixelFormat,
    color: Color,
    glyph: Seq<Seq<u8>>,
    px: int,
    py: int,
    w_clip: int,
) -> Seq<Seq<Seq<u8>>> {
    Seq::new(
        g.len(),
        |y: int| if py <= y < py + glyph.len() {
            blit_row(g[y], f, color, glyph[y - py], px, w_clip)
        } else {
            g[y]
        },
    )
}

/// The grid after the pixel rectangle of size `w x h` at `(sx, sy)` is
/// copied to `(dx, dy)`.
pub open spec fn copy_rect_grid(
    g: Seq<Seq<Seq<u8>>>,
    sx: int,
    sy: int,
    dx: int,
    dy: int,
    w: int,
    h: int,
) -> Seq<Seq<Seq<u8>>> {
    Seq::new(
        g.len(),
        |y: int| if dy <= y < dy + h {
            Seq::new(
                g[y].len(),
                |x: int| if dx <= x < dx + w {
                    g[y - dy + sy][x - dx + sx]
                } else {
                    g[y][x]
                },
            )
        } else {
            g[y]
        },
    )
}

/// Reading back a drawn pixel returns the written color re-encoded in the
/// surface's configured channel order.
pub proof fn lemma_draw_pixel_readback(
    g: Seq<Seq<Seq<u8>>>,
    info: SurfaceInfo,
    c: Color,
    x: int,
    y: int,
)
    requires
        info.wf(),
        grid_wf(g, info),
        0 <= x < info.width,
        0 <= y < info.height,
    ensures
        draw_pixel_grid(g, info.format, c, x, y)[y][x].take(bytes_of_format(info.format))
            == encode_color(info.format, c),
{
    let bw = bytes_of_format(info.format);
    assert(encode_color(info.format, c).len() == bw);
    assert(pixel_written(g[y][x], info.format, c).take(bw) =~= encode_color(info.format, c));
}

/// The grid after one pixel is drawn.
pub open spec fn draw_pixel_grid(
    g: Seq<Seq<Seq<u8>>>,
    f: PixelFormat,
    c: Color,
    x: int,
    y: int,
) -> Seq<Seq<Seq<u8>>> {
    g.update(y, g[y].update(x, pixel_written(g[y][x], f, c)))
}

/// Raw write access to a linear framebuffer plus its geometry metadata.
pub struct Display {
    info: SurfaceInfo,
    buf: Vec<u8>,
}

impl Display {
    /// The underlying bytes.
    pub closed spec fn bytes(self) -> Seq<u8> {
        self.buf@
    }

    /// The geometry the surface was constructed with.
    pub closed spec fn spec_info(&self) -> SurfaceInfo {
        self.info
    }

    /// The buffer as rows of pixels of channel bytes.
    pub open spec fn grid(self) -> Seq<Seq<Seq<u8>>> {
        grid_of(self.bytes(), self.spec_info())
    }

    pub open spec fn wf(self) -> bool {
        &&& self.spec_info().wf()
        &&& self.bytes().len() == self.spec_info().area()
    }

    /// The geometry the surface was constructed with.
    #[verifier::when_used_as_spec(spec_info)]
    pub fn surface_info(&self) -> (r: SurfaceInfo)
        ensures
            r == self.spec_info(),
    {
        self.info
    }

    /// Takes ownership of a linear pixel buffer whose geometry the loader
    /// reported.
    pub fn new(buf: Vec<u8>, info: SurfaceInfo) -> (r: Display)
        requires
            info.wf(),
            buf@.len() == info.area(),
        ensures
            r.wf(),
            r.spec_info() == info,
            r.bytes() == buf@,
    {
        Display { info, buf }
    }

    /// A copy of the raw buffer contents, for callers that export the frame.
    pub fn snapshot(&self) -> (r: Vec<u8>)
        ensures
            r@ == self.bytes(),
    {
        let mut out: Vec<u8> = Vec::new();
        let n = self.buf.len();
        let mut i: usize = 0;
        while i < n
            invariant
                i <= n,
                n == self.buf@.len(),
                out@ == self.buf@.take(i as int),
            decreases n - i,
        {
            out.push(self.buf[i]);
            assert(out@ =~= self.buf@.take(i + 1));
            i = i + 1;
        }
        assert(out@ =~= self.buf@);
        out
    }

    fn pixel_pos_to_real(&self, position: Point) -> (r: usize)
        requires
            self.wf(),
            position.0 < self.spec_info().stride,
            position.1 < self.spec_info().height,
        ensures
            r == byte_offset(self.spec_info(), position.0 as int, position.1 as int, 0),
            r + self.spec_info().bytes_per_pixel <= self.bytes().len(),
    {
        proof {
            let s = self.info.stride as int;
            let b = self.info.bytes_per_pixel as int;
            let h = self.info.height as int;
            let x = position.0 as int;
            let y = position.1 as int;
            lemma_byte_offset_in_range(self.info, x, y, b - 1);
            assert(s * b <= s * b * h && (s * b) * y + x * b == (y * s + x) * b && (s * b) * y + x
                * b <= (y * s + x) * b + (b - 1)) by (nonlinear_arith)
                requires
                    1 <= h,
                    0 <= y,
                    0 <= x,
                    1 <= b,
                    0 <= s,
            ;
        }
        let stride = self.info.stride * self.info.bytes_per_pixel;
        stride * position.1 + position.0 * self.info.bytes_per_pixel
    }

    /// Writes one pixel. The caller is responsible for bounds: `(x, y)` must
    /// lie strictly within the surface.
    pub fn draw_pixel(&mut self, color: Color, position: Point)
        requires
            old(self).wf(),
            position.0 < old(self).spec_info().width,
            position.1 < old(self).spec_info().height,
        ensures
            final(self).wf(),
            final(self).spec_info() == old(self).spec_info(),
            final(self).grid() == draw_pixel_grid(
                old(self).grid(),
                old(self).spec_info().format,
                color,
                position.0 as int,
                position.1 as int,
            ),
    {
        let ghost info = self.info;
        let ghost x = position.0 as int;
        let ghost y = position.1 as int;
        let ghost g0 = self.grid();
        let pos = self.pixel_pos_to_real(position);
        match self.info.format {
            PixelFormat::Rgb => {
                self.buf.set(pos, color.0);
                self.buf.set(pos + 1, color.1);
                self.buf.set(pos + 2, color.2);
            },
            PixelFormat::Bgr => {
                self.buf.set(pos, color.2);
                self.buf.set(pos + 1, color.1);
                self.buf.set(pos + 2, color.0);
            },
            PixelFormat::U8 => {
                let gray = ((color.0 as u16 + color.1 as u16 + color.2 as u16) / 3) as u8;
                self.buf.set(pos, gray);
            },
        }
        proof {
            let bw = bytes_of_format(info.format);
            let p0 = g0[y][x];
            let enc = encode_color(info.format, color);
            let old_bytes = old(self).bytes();
            if bw == 3 {
                lemma_grid_update(old_bytes, info, x, y, 0, enc[0]);
                lemma_grid_update(old_bytes.update(byte_offset(info, x, y, 0), enc[0]), info, x, y, 1, enc[1]);
                lemma_grid_update(
                    old_bytes.update(byte_offset(info, x, y, 0), enc[0]).update(
                        byte_offset(info, x, y, 1),
                        enc[1],
                    ),
                    info,
                    x,
                    y,
                    2,
                    enc[2],
                );
                assert(self.bytes() =~= old_bytes.update(byte_offset(info, x, y, 0), enc[0]).update(
                    byte_offset(info, x, y, 1),
                    enc[1],
                ).update(byte_offset(info, x, y, 2), enc[2]));
                assert(p0.update(0, enc[0]).update(1, enc[1]).update(2, enc[2]) =~= pixel_written(
                    p0,
                    info.format,
                    color,
                ));
                assert(self.grid() =~~= draw_pixel_grid(g0, info.format, color, x, y));
            } else {
                assert(((color.0 + color.1 + color.2) as int) / 3 == gray_of(color));
                lemma_grid_update(old_bytes, info, x, y, 0, enc[0]);
                assert(self.bytes() =~= old_bytes.update(byte_offset(info, x, y, 0), enc[0]));
                assert(p0.update(0, enc[0]) =~= pixel_written(p0, info.format, color));
                assert(self.grid() =~~= draw_pixel_grid(g0, info.format, color, x, y));
            }
        }
    }

    /// The channel bytes stored for the pixel at `position`, in the
    /// surface's configured order.
    pub fn read_pixel(&self, position: Point) -> (r: Vec<u8>)
        requires
            self.wf(),
            position.0 < self.spec_info().stride,
            position.1 < self.spec_info().height,
        ensures
            r@ == self.grid()[position.1 as int][position.0 as int].take(
                bytes_of_format(self.spec_info().format),
            ),
    {
        let ghost x = position.0 as int;
        let ghost y = position.1 as int;
        let pos = self.pixel_pos_to_real(position);
        let bw: usize = match self.info.format {
            PixelFormat::Rgb => 3,
            PixelFormat::Bgr => 3,
            PixelFormat::U8 => 1,
        };
        let mut out: Vec<u8> = Vec::new();
        let mut k: usize = 0;
        while k < bw
            invariant
                k <= bw,
                bw == bytes_of_format(self.info.format),
                self.wf(),
                0 <= y < self.info.height,
                0 <= x < self.info.stride,
                pos == byte_offset(self.info, x, y, 0),
                pos + self.info.bytes_per_pixel <= self.bytes().len(),
                out@ == self.grid()[y][x].take(k as int),
            decreases bw - k,
        {
            proof {
                lemma_grid_index(self.bytes(), self.info, x, y, k as int);
            }
            out.push(self.buf[pos + k]);
            assert(out@ =~= self.grid()[y][x].take(k + 1));
            k = k + 1;
        }
        out
    }

    /// Whether a rectangle is upright and lies within the surface: exactly
    /// the drawing contract `draw_rect` demands of its caller.
    pub fn rect_in_bounds(&self, top_left: Point, bottom_right: Point) -> (r: bool)
        ensures
            r == (top_left.0 <= bottom_right.0 && top_left.1 <= bottom_right.1 && bottom_right.0
                <= self.spec_info().width && bottom_right.1 <= self.spec_info().height),
    {
        top_left.0 <= bottom_right.0 && top_left.1 <= bottom_right.1 && bottom_right.0
            <= self.info.width && bottom_right.1 <= self.info.height
    }

    /// Fills an axis-aligned rectangle. The rectangle must be upright and
    /// must lie within the surface; a violation is a programming-contract
    /// violation, not a runtime condition.
    pub fn draw_rect(&mut self, color: Color, top_left: Point, bottom_right: Point)
        requires
            old(self).wf(),
            top_left.0 <= bottom_right.0,
            top_left.1 <= bottom_right.1,
            bottom_right.0 <= old(self).spec_info().width,
            bottom_right.1 <= old(self).spec_info().height,
        ensures
            final(self).wf(),
            final(self).spec_info() == old(self).spec_info(),
            final(self).grid() == fill_rect_grid(
                old(self).grid(),
                old(self).spec_info().format,
                color,
                top_left.0 as int,
                bottom_right.0 as int,
                top_left.1 as int,
                bottom_right.1 as int,
            ),
    {
        let ghost info = self.spec_info();
        let ghost f = info.format;
        let ghost g0 = self.grid();
        let ghost x0 = top_left.0 as int;
        let ghost x1 = bottom_right.0 as int;
        let ghost y0 = top_left.1 as int;
        let ghost y1 = bottom_right.1 as int;
        proof {
            lemma_grid_of_wf(self.bytes(), info);
            assert(self.grid() =~~= fill_rect_grid(g0, f, color, x0, x1, y0, y0));
        }
        let mut y = top_left.1;
        while y < bottom_right.1
            invariant
                self.wf(),
                self.spec_info() == info,
                grid_wf(g0, info),
                top_left.1 <= y <= bottom_right.1,
                top_left.0 <= bottom_right.0,
                x0 == top_left.0 && x1 == bottom_right.0 && y0 == top_left.1 && y1
                    == bottom_right.1,
                bottom_right.0 <= info.width,
                bottom_right.1 <= info.height,
                f == info.format,
                self.grid() == fill_rect_grid(g0, f, color, x0, x1, y0, y as int),
            decreases bottom_right.1 - y,
        {
            let mut x = top_left.0;
            proof {
                assert(fill_rect_grid(g0, f, color, x0, x1, y0, y as int).update(
                    y as int,
                    fill_row_upto(g0[y as int], f, color, x0, x0),
                ) =~~= fill_rect_grid(g0, f, color, x0, x1, y0, y as int));
            }
            while x < bottom_right.0
                invariant
                    self.wf(),
                    self.spec_info() == info,
                    grid_wf(g0, info),
                    top_left.0 <= x <= bottom_right.0,
                    top_left.1 <= y < bottom_right.1,
                    x0 == top_left.0 && x1 == bottom_right.0 && y0 == top_left.1 && y1
                        == bottom_right.1,
                    bottom_right.0 <= info.width,
                    bottom_right.1 <= info.height,
                    f == info.format,
                    self.grid() == fill_rect_grid(g0, f, color, x0, x1, y0, y as int).update(
                        y as int,
                        fill_row_upto(g0[y as int], f, color, x0, x as int),
                    ),
                decreases bottom_right.0 - x,
            {
                let ghost gcur = self.grid();
                self.draw_pixel(color, Point(x, y));
                proof {
                    let yi = y as int;
                    let xi = x as int;
                    assert(gcur[yi][xi] == g0[yi][xi]);
                    assert(gcur[yi].update(xi, pixel_written(g0[yi][xi], f, color)) =~= fill_row_upto(
                        g0[yi],
                        f,
                        color,
                        x0,
                        xi + 1,
                    ));
                    assert(self.grid() =~~= fill_rect_grid(g0, f, color, x0, x1, y0, yi).update(
                        yi,
                        fill_row_upto(g0[yi], f, color, x0, xi + 1),
                    ));
                }
                x = x + 1;
            }
            proof {
                let yi = y as int;
                assert(fill_rect_grid(g0, f, color, x0, x1, y0, yi).update(
                    yi,
                    fill_row_upto(g0[yi], f, color, x0, x1),
                ) =~~= fill_rect_grid(g0, f, color, x0, x1, y0, yi + 1));
            }
            y = y + 1;
        }
    }

    /// Fills the whole surface with `color`.
    pub fn clear(&mut self, color: Color)
        requires
            old(self).wf(),
        ensures
            final(self).wf(),
            final(self).spec_info() == old(self).spec_info(),
            final(self).grid() == fill_rect_grid(
                old(self).grid(),
                old(self).spec_info().format,
                color,
                0,
                old(self).spec_info().width as int,
                0,
                old(self).spec_info().height as int,
            ),
    {
        let info = self.surface_info();
        self.draw_rect(color, Point(0, 0), Point(info.width, info.height));
    }

    /// Copies one pixel's stored bytes onto another pixel.
    fn copy_pixel(&mut self, src: Point, dst: Point)
        requires
            old(self).wf(),
            src.0 < old(self).spec_info().stride,
            src.1 < old(self).spec_info().height,
            dst.0 < old(self).spec_info().stride,
            dst.1 < old(self).spec_info().height,
            src.0 != dst.0 || src.1 != dst.1,
        ensures
            final(self).wf(),
            final(self).spec_info() == old(self).spec_info(),
            final(self).grid() == old(self).grid().update(
                dst.1 as int,
                old(self).grid()[dst.1 as int].update(
                    dst.0 as int,
                    old(self).grid()[src.1 as int][src.0 as int],
                ),
            ),
    {
        let ghost info = self.spec_info();
        let ghost g0 = self.grid();
        let ghost sx = src.0 as int;
        let ghost sy = src.1 as int;
        let ghost dx = dst.0 as int;
        let ghost dy = dst.1 as int;
        proof {
            lemma_grid_of_wf(self.bytes(), info);
        }
        let spos = self.pixel_pos_to_real(src);
        let dpos = self.pixel_pos_to_real(dst);
        let b = self.info.bytes_per_pixel;
        let mut k: usize = 0;
        proof {
            assert(g0.update(dy, g0[dy].update(dx, g0[sy][sx].take(0).add(g0[dy][dx].skip(0))))
                =~~= g0);
        }
        while k < b
            invariant
                self.wf(),
                self.spec_info() == info,
                grid_wf(g0, info),
                k <= b,
                b == info.bytes_per_pixel,
                0 <= sx < info.stride && 0 <= sy < info.height,
                0 <= dx < info.stride && 0 <= dy < info.height,
                sx != dx || sy != dy,
                spos == byte_offset(info, sx, sy, 0),
                dpos == byte_offset(info, dx, dy, 0),
                spos + b <= self.bytes().len(),
                dpos + b <= self.bytes().len(),
                self.grid() == g0.update(
                    dy,
                    g0[dy].update(dx, g0[sy][sx].take(k as int).add(g0[dy][dx].skip(k as int))),
                ),
            decreases b - k,
        {
            let ghost gcur = self.grid();
            let v = self.buf[spos + k];
            proof {
                lemma_grid_index(self.bytes(), info, sx, sy, k as int);
                assert(gcur[sy][sx] == g0[sy][sx]);
                assert(v == g0[sy][sx][k as int]);
                lemma_grid_update(self.bytes(), info, dx, dy, k as int, v);
            }
            self.buf.set(dpos + k, v);
            proof {
                let pk = g0[sy][sx].take(k as int).add(g0[dy][dx].skip(k as int));
                assert(gcur[dy][dx] == pk);
                assert(pk.update(k as int, v) =~= g0[sy][sx].take(k + 1).add(
                    g0[dy][dx].skip(k + 1),
                ));
                assert(self.grid() =~~= g0.update(
                    dy,
                    g0[dy].update(dx, g0[sy][sx].take(k + 1).add(g0[dy][dx].skip(k + 1))),
                ));
            }
            k = k + 1;
        }
        proof {
            assert(g0[sy][sx].take(b as int).add(g0[dy][dx].skip(b as int)) =~= g0[sy][sx]);
        }
    }

    /// Copies a `width x height` pixel rectangle from `src` to `dst`,
    /// row by row. The caller must guarantee both rectangles are in bounds
    /// and do not overlap.
    pub fn copy_rect(&mut self, src: Point, dst: Point, width: usize, height: usize)
        requires
            old(self).wf(),
            src.0 + width <= old(self).spec_info().stride,
            src.1 + height <= old(self).spec_info().height,
            dst.0 + width <= old(self).spec_info().stride,
            dst.1 + height <= old(self).spec_info().height,
            dst.1 + height <= src.1 || src.1 + height <= dst.1 || dst.0 + width <= src.0 || src.0
                + width <= dst.0,
        ensures
            final(self).wf(),
            final(self).spec_info() == old(self).spec_info(),
            final(self).grid() == copy_rect_grid(
                old(self).grid(),
                src.0 as int,
                src.1 as int,
                dst.0 as int,
                dst.1 as int,
                width as int,
                height as int,
            ),
    {
        let ghost info = self.spec_info();
        let ghost g0 = self.grid();
        let ghost sx = src.0 as int;
        let ghost sy = src.1 as int;
        let ghost dx = dst.0 as int;
        let ghost dy = dst.1 as int;
        let ghost w = width as int;
        let ghost h = height as int;
        proof {
            lemma_grid_of_wf(self.bytes(), info);
            assert(self.grid() =~~= copy_rect_grid(g0, sx, sy, dx, dy, w, 0));
        }
        let mut r: usize = 0;
        while r < height
            invariant
                self.wf(),
                self.spec_info() == info,
                grid_wf(g0, info),
                r <= height,
                sx == src.0 && sy == src.1 && dx == dst.0 && dy == dst.1,
                w == width && h == height,
                src.0 + width <= info.stride,
                src.1 + height <= info.height,
                dst.0 + width <= info.stride,
                dst.1 + height <= info.height,
                dy + h <= sy || sy + h <= dy || dx + w <= sx || sx + w <= dx,
                self.grid() == copy_rect_grid(g0, sx, sy, dx, dy, w, r as int),
            decreases height - r,
        {
            let ghost ri = r as int;
            let mut c: usize = 0;
            proof {
                assert(copy_rect_grid(g0, sx, sy, dx, dy, w, ri).update(
                    dy + ri,
                    Seq::new(
                        g0[dy + ri].len(),
                        |x: int| if dx <= x < dx + 0 {
                            g0[sy + ri][x - dx + sx]
                        } else {
                            g0[dy + ri][x]
                        },
                    ),
                ) =~~= copy_rect_grid(g0, sx, sy, dx, dy, w, ri));
            }
            while c < width
                invariant
                    self.wf(),
                    self.spec_info() == info,
                    grid_wf(g0, info),
                    c <= width,
                    r < height,
                    ri == r as int,
                    sx == src.0 && sy == src.1 && dx == dst.0 && dy == dst.1,
                    w == width && h == height,
                    src.0 + width <= info.stride,
                    src.1 + height <= info.height,
                    dst.0 + width <= info.stride,
                    dst.1 + height <= info.height,
                    dy + h <= sy || sy + h <= dy || dx + w <= sx || sx + w <= dx,
                    self.grid() == copy_rect_grid(g0, sx, sy, dx, dy, w, ri).update(
                        dy + ri,
                        Seq::new(
                            g0[dy + ri].len(),
                            |x: int| if dx <= x < dx + c {
                                g0[sy + ri][x - dx + sx]
                            } else {
                                g0[dy + ri][x]
                            },
                        ),
                    ),
                decreases width - c,
            {
                let ghost gcur = self.grid();
                let ghost ci = c as int;
                proof {
                    assert(gcur[sy + ri][sx + ci] == g0[sy + ri][sx + ci]);
                }
                self.copy_pixel(Point(src.0 + c, src.1 + r), Point(dst.0 + c, dst.1 + r));
                proof {
                    assert(gcur[dy + ri].update(dx + ci, g0[sy + ri][sx + ci]) =~= Seq::new(
                        g0[dy + ri].len(),
                        |x: int| if dx <= x < dx + (ci + 1) {
                            g0[sy + ri][x - dx + sx]
                        } else {
                            g0[dy + ri][x]
                        },
                    ));
                    assert(self.grid() =~~= copy_rect_grid(g0, sx, sy, dx, dy, w, ri).update(
                        dy + ri,
                        Seq::new(
                            g0[dy + ri].len(),
                            |x: int| if dx <= x < dx + (ci + 1) {
                                g0[sy + ri][x - dx + sx]
                            } else {
                                g0[dy + ri][x]
                            },
                        ),
                    ));
                }
                c = c + 1;
            }
            proof {
                assert(copy_rect_grid(g0, sx, sy, dx, dy, w, ri).update(
                    dy + ri,
                    Seq::new(
                        g0[dy + ri].len(),
                        |x: int| if dx <= x < dx + w {
                            g0[sy + ri][x - dx + sx]
                        } else {
                            g0[dy + ri][x]
                        },
                    ),
                ) =~~= copy_rect_grid(g0, sx, sy, dx, dy, w, ri + 1));
            }
            r = r + 1;
        }
    }
}

impl Display {
    /// Rasterizes one character with its cell's top-left corner at pixel
    /// `position`, blitting the glyph by per-pixel intensity-scaled color.
    /// Falls back to the replacement glyph where the font does not know the
    /// character.
    pub fn putc(&mut self, c: char, color: Color, position: Point)
        requires
            old(self).wf(),
            position.0 + font::CELL_W <= old(self).spec_info().width,
            position.1 + font::CELL_H <= old(self).spec_info().height,
        ensures
            final(self).wf(),
            final(self).spec_info() == old(self).spec_info(),
            final(self).grid() == blit_grid(
                old(self).grid(),
                old(self).spec_info().format,
                color,
                font::glyph_for(c),
                position.0 as int,
                position.1 as int,
                old(self).spec_info().width as int,
            ),
    {
        let glyph = match font::lookup_glyph(c) {
            Some(g) => g,
            None => match font::lookup_glyph('?') {
                Some(g) => g,
                None => {
                    proof {
                        assert(false);
                    }
                    font::Glyph { rows: Vec::new() }
                },
            },
        };
        let ghost info = self.spec_info();
        let ghost f = info.format;
        let ghost g0 = self.grid();
        let ghost px = position.0 as int;
        let ghost py = position.1 as int;
        let ghost wc = info.width as int;
        let ghost gl = glyph.raster();
        proof {
            assert(gl =~~= font::glyph_for(c));
            assert forall|i: int| 0 <= i < gl.len() implies (#[trigger] gl[i]).len()
                == font::GLYPH_W by {
                assert(gl[i] == glyph.rows@[i]@);
            }
            lemma_grid_of_wf(self.bytes(), info);
            assert(self.grid() =~~= blit_grid(g0, f, color, gl.take(0), px, py, wc));
        }
        let nrows = glyph.rows.len();
        let mut row: usize = 0;
        while row < nrows
            invariant
                self.wf(),
                self.spec_info() == info,
                grid_wf(g0, info),
                row <= nrows,
                nrows == gl.len() == font::GLYPH_H,
                forall|i: int| 0 <= i < gl.len() ==> (#[trigger] gl[i]).len() == font::GLYPH_W,
                gl == glyph.raster(),
                glyph.rows@.len() == nrows,
                position.0 + font::CELL_W <= info.width,
                position.1 + font::CELL_H <= info.height,
                px == position.0 && py == position.1 && wc == info.width,
                f == info.format,
                self.grid() == blit_grid(g0, f, color, gl.take(row as int), px, py, wc),
            decreases nrows - row,
        {
            let ghost ri = row as int;
            let ncols = glyph.rows[row].len();
            proof {
                assert(gl[ri] == glyph.rows@[ri]@);
            }
            assert(ncols == font::GLYPH_W);
            let mut col: usize = 0;
            proof {
                assert(blit_grid(g0, f, color, gl.take(ri), px, py, wc).update(
                    py + ri,
                    blit_row(g0[py + ri], f, color, gl[ri].take(0), px, wc),
                ) =~~= blit_grid(g0, f, color, gl.take(ri), px, py, wc));
            }
            while col < ncols
                invariant
                    self.wf(),
                    self.spec_info() == info,
                    grid_wf(g0, info),
                    col <= ncols,
                    row < nrows,
                    ri == row as int,
                    nrows == gl.len() == font::GLYPH_H,
                    forall|i: int| 0 <= i < gl.len() ==> (#[trigger] gl[i]).len() == font::GLYPH_W,
                    ncols == font::GLYPH_W,
                    gl == glyph.raster(),
                    glyph.rows@.len() == nrows,
                    position.0 + font::CELL_W <= info.width,
                    position.1 + font::CELL_H <= info.height,
                    px == position.0 && py == position.1 && wc == info.width,
                    f == info.format,
                    self.grid() == blit_grid(g0, f, color, gl.take(ri), px, py, wc).update(
                        py + ri,
                        blit_row(g0[py + ri], f, color, gl[ri].take(col as int), px, wc),
                    ),
                decreases ncols - col,
            {
                let ghost ci = col as int;
                let it = glyph.rows[row][col];
                assert(it == gl[ri][ci]);
                let sc = Color(
                    scale_channel(color.0, it),
                    scale_channel(color.1, it),
                    scale_channel(color.2, it),
                );
                assert(sc == scale_color(color, it));
                let ghost gcur = self.grid();
                self.draw_pixel(sc, Point(position.0 + col, position.1 + row));
                proof {
                    assert(gcur[py + ri][px + ci] == g0[py + ri][px + ci]);
                    assert(gcur[py + ri].update(
                        px + ci,
                        pixel_written(g0[py + ri][px + ci], f, sc),
                    ) =~= blit_row(g0[py + ri], f, color, gl[ri].take(ci + 1), px, wc));
                    assert(self.grid() =~~= blit_grid(g0, f, color, gl.take(ri), px, py, wc).update(
                        py + ri,
                        blit_row(g0[py + ri], f, color, gl[ri].take(ci + 1), px, wc),
                    ));
                }
                col = col + 1;
            }
            proof {
                assert(gl[ri].take(ncols as int) =~= gl[ri]);
                assert(blit_grid(g0, f, color, gl.take(ri), px, py, wc).update(
                    py + ri,
                    blit_row(g0[py + ri], f, color, gl[ri], px, wc),
                ) =~~= blit_grid(g0, f, color, gl.take(ri + 1), px, py, wc));
            }
            row = row + 1;
        }
        proof {
            assert(gl.take(nrows as int) =~= gl);
        }
    }
}

/// One channel value scaled by a glyph coverage intensity.
fn scale_channel(v: u8, i: u8) -> (r: u8)
    ensures
        r == scale8(v, i),
{
    proof {
        assert((v * i) / 255 <= 255 && (v as int * i as int) / 255 == (v * i) as int / 255)
            by (nonlinear_arith)
            requires
                v <= 255,
                i <= 255,
        ;
    }
    (((v as u32) * (i as u32)) / 255) as u8
}

} // verus!
