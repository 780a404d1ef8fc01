use vstd::prelude::*;

use crate::display::{
    blit_grid, fill_rect_grid, fill_row_upto, grid_of, grid_wf, Color, Display, Point, SurfaceInfo,
    copy_rect_grid,
};
use crate::font;
use crate::font::{CELL_H, CELL_W};

verus! {

/// The mathematical state of a console: its surface geometry, character
/// grid size, colors, pixel contents and cursor, in character cells.
pub struct ConsoleModel {
    pub info: SurfaceInfo,
    pub width: nat,
    pub height: nat,
    pub clear_color: Color,
    pub text_color: Color,
    pub grid: Seq<Seq<Seq<u8>>>,
    pub cx: nat,
    pub cy: nat,
}

pub open spec fn wf_model(m: ConsoleModel) -> bool {
    &&& m.info.wf()
    &&& grid_wf(m.grid, m.info)
    &&& 1 <= m.width
    &&& 1 <= m.height
    &&& m.width * CELL_W <= m.info.width
    &&& m.height * CELL_H <= m.info.height
    &&& m.cx < m.width
    &&& m.cy < m.height
}

/// The pixel grid after the character rows shift up by one: every text-area
/// pixel moves up one cell height, the last character row is cleared to the
/// background color over the surface's full visible width, and everything
/// else is kept.
pub open spec fn scroll_grid(
    g: Seq<Seq<Seq<u8>>>,
    info: SurfaceInfo,
    w: int,
    h: int,
    clear: Color,
) -> Seq<Seq<Seq<u8>>> {
    Seq::new(
        g.len(),
        |y: int| if 0 <= y < (h - 1) * CELL_H {
            Seq::new(
                g[y].len(),
                |x: int| if 0 <= x < w * CELL_W {
                    g[y + CELL_H][x]
                } else {
                    g[y][x]
                },
            )
        } else if (h - 1) * CELL_H <= y < h * CELL_H {
            fill_row_upto(g[y], info.format, clear, 0, info.width as int)
        } else {
            g[y]
        },
    )
}

/// The pixel grid after the top `l` character rows are replaced by the rows
/// one cell below them, text-area columns only.
spec fn scroll_top(g: Seq<Seq<Seq<u8>>>, w: int, l: int) -> Seq<Seq<Seq<u8>>> {
    Seq::new(
        g.len(),
        |y: int| if 0 <= y < l * CELL_H {
            Seq::new(
                g[y].len(),
                |x: int| if 0 <= x < w * CELL_W {
                    g[y + CELL_H][x]
                } else {
                    g[y][x]
                },
            )
        } else {
            g[y]
        },
    )
}

/// The console after one glyph is rasterized at the cursor cell; the cursor
/// does not move.
pub open spec fn putc_model(m: ConsoleModel, c: char) -> ConsoleModel {
    ConsoleModel {
        grid: blit_grid(
            m.grid,
            m.info.format,
            m.text_color,
            font::glyph_for(c),
            m.cx as int * CELL_W,
            m.cy as int * CELL_H,
            m.info.width as int,
        ),
        ..m
    }
}

/// The console after the cursor advances one cell: it wraps to the next row
/// at the grid width, and the content scrolls instead of the cursor leaving
/// the last row.
pub open spec fn advance_model(m: ConsoleModel) -> ConsoleModel {
    if m.cx + 1 < m.width {
        ConsoleModel { cx: (m.cx + 1) as nat, ..m }
    } else if m.cy + 1 < m.height {
        ConsoleModel { cx: 0, cy: (m.cy + 1) as nat, ..m }
    } else {
        ConsoleModel {
            cx: 0,
            grid: scroll_grid(m.grid, m.info, m.width as int, m.height as int, m.clear_color),
            ..m
        }
    }
}

/// The console after a line break: the cursor moves to the start of the
/// next row, scrolling at the last row.
pub open spec fn newline_model(m: ConsoleModel) -> ConsoleModel {
    if m.cy + 1 < m.height {
        ConsoleModel { cx: 0, cy: (m.cy + 1) as nat, ..m }
    } else {
        ConsoleModel {
            cx: 0,
            cy: (m.height - 1) as nat,
            grid: scroll_grid(m.grid, m.info, m.width as int, m.height as int, m.clear_color),
            ..m
        }
    }
}

/// The console after one character is written: a line break moves the
/// cursor, any other character is rasterized at the cursor cell and the
/// cursor advances.
pub open spec fn write_char_model(m: ConsoleModel, c: char) -> ConsoleModel {
    if c == '\n' {
        newline_model(m)
    } else {
        advance_model(putc_model(m, c))
    }
}

/// The console after a sequence of characters is written, one at a time.
pub open spec fn write_model(m: ConsoleModel, s: Seq<char>) -> ConsoleModel
    decreases s.len(),
{
    if s.len() == 0 {
        m
    } else {
        write_char_model(write_model(m, s.drop_last()), s.last())
    }
}

/// Writing a concatenation writes the parts in order.
pub proof fn lemma_write_model_append(m: ConsoleModel, s1: Seq<char>, s2: Seq<char>)
    ensures
        write_model(m, s1 + s2) == write_model(write_model(m, s1), s2),
    decreases s2.len(),
{
    if s2.len() == 0 {
        assert(s1 + s2 =~= s1);
    } else {
        lemma_write_model_append(m, s1, s2.drop_last());
        assert((s1 + s2).drop_last() =~= s1 + s2.drop_last());
        assert((s1 + s2).last() == s2.last());
    }
}

/// Cursor wrap law: an advance keeps the cursor inside the character grid;
/// crossing the row boundary moves the cursor down exactly one row, and at
/// the last row the content scrolls instead, the cursor staying on that
/// row.
pub proof fn lemma_cursor_wrap(m: ConsoleModel)
    requires
        wf_model(m),
    ensures
        advance_model(m).cx < m.width,
        advance_model(m).cy < m.height,
        advance_model(m).width == m.width && advance_model(m).height == m.height,
        m.cx + 1 < m.width ==> advance_model(m).cx == m.cx + 1 && advance_model(m).cy == m.cy
            && advance_model(m).grid == m.grid,
        m.cx + 1 == m.width ==> advance_model(m).cx == 0,
        m.cx + 1 == m.width && m.cy + 1 < m.height ==> advance_model(m).cy == m.cy + 1
            && advance_model(m).grid == m.grid,
        m.cx + 1 == m.width && m.cy + 1 == m.height ==> advance_model(m).cy == m.cy
            && advance_model(m).grid == scroll_grid(
            m.grid,
            m.info,
            m.width as int,
            m.height as int,
            m.clear_color,
        ),
{
}

/// Scroll content law: after a scroll, each text-area pixel holds what
/// stood one character row below it, the last character row is cleared to
/// the background color, and every other byte is unchanged.
pub proof fn lemma_scroll_content(
    g: Seq<Seq<Seq<u8>>>,
    info: SurfaceInfo,
    w: int,
    h: int,
    clear: Color,
    y: int,
    x: int,
)
    requires
        info.wf(),
        grid_wf(g, info),
        1 <= w && w * CELL_W <= info.width,
        1 <= h && h * CELL_H <= info.height,
        0 <= y < g.len(),
    ensures
        0 <= y < (h - 1) * CELL_H && 0 <= x < w * CELL_W ==> scroll_grid(g, info, w, h, clear)[y][x]
            == g[y + CELL_H][x],
        (h - 1) * CELL_H <= y < h * CELL_H && 0 <= x < info.width ==> scroll_grid(
            g,
            info,
            w,
            h,
            clear,
        )[y][x].take(crate::display::bytes_of_format(info.format)) == crate::display::encode_color(
            info.format,
            clear,
        ),
        h * CELL_H <= y ==> scroll_grid(g, info, w, h, clear)[y] == g[y],
{
    let bw = crate::display::bytes_of_format(info.format);
    let sg = scroll_grid(g, info, w, h, clear);
    if (h - 1) * CELL_H <= y < h * CELL_H && 0 <= x < info.width {
        assert(crate::display::encode_color(info.format, clear).len() == bw);
        assert(sg[y][x].take(bw) =~= crate::display::encode_color(info.format, clear));
    }
}

/// Pixel channel equality over the visible area: the two grids have the
/// same shape, and for every pixel inside the surface's visible width they
/// agree on the channel bytes a draw can write.
pub open spec fn same_visible(
    a: Seq<Seq<Seq<u8>>>,
    b: Seq<Seq<Seq<u8>>>,
    info: SurfaceInfo,
) -> bool {
    &&& a.len() == b.len()
    &&& (forall|y: int| 0 <= y < a.len() ==> (#[trigger] a[y]).len() == b[y].len())
    &&& (forall|y: int, x: int|
        0 <= y < a.len() && 0 <= x < info.width ==> (#[trigger] a[y][x]).take(
            crate::display::bytes_of_format(info.format),
        ) == b[y][x].take(crate::display::bytes_of_format(info.format)))
}

/// The parts of two console states that writing cannot change are equal.
pub open spec fn same_config(m1: ConsoleModel, m2: ConsoleModel) -> bool {
    &&& m1.info == m2.info
    &&& m1.width == m2.width
    &&& m1.height == m2.height
    &&& m1.clear_color == m2.clear_color
    &&& m1.text_color == m2.text_color
}

proof fn lemma_pixel_written_take(p: Seq<u8>, f: crate::display::PixelFormat, c: Color)
    ensures
        crate::display::pixel_written(p, f, c).take(crate::display::bytes_of_format(f))
            == crate::display::encode_color(f, c),
        p.len() >= crate::display::bytes_of_format(f) ==> crate::display::pixel_written(p, f, c).len()
            == p.len(),
{
    let bw = crate::display::bytes_of_format(f);
    assert(crate::display::encode_color(f, c).len() == bw);
    assert(crate::display::pixel_written(p, f, c).take(bw) =~= crate::display::encode_color(f, c));
}

proof fn lemma_write_char_rerender(m1: ConsoleModel, m2: ConsoleModel, c: char)
    requires
        wf_model(m1),
        wf_model(m2),
        same_config(m1, m2),
        m1.cx == m2.cx,
        m1.cy == m2.cy,
        same_visible(m1.grid, m2.grid, m1.info),
    ensures
        wf_model(write_char_model(m1, c)),
        wf_model(write_char_model(m2, c)),
        same_config(write_char_model(m1, c), m1),
        same_config(write_char_model(m2, c), m2),
        same_config(write_char_model(m1, c), write_char_model(m2, c)),
        write_char_model(m1, c).cx == write_char_model(m2, c).cx,
        write_char_model(m1, c).cy == write_char_model(m2, c).cy,
        same_visible(write_char_model(m1, c).grid, write_char_model(m2, c).grid, m1.info),
{
    let info = m1.info;
    let bw = crate::display::bytes_of_format(info.format);
    let f = info.format;
    let w = m1.width as int;
    let h = m1.height as int;
    // The blitted grids of the two states stay visibly equal and well-formed.
    let p1 = putc_model(m1, c);
    let p2 = putc_model(m2, c);
    assert forall|y: int, x: int|
        0 <= y < p1.grid.len() && 0 <= x < info.width implies (#[trigger] p1.grid[y][x]).take(bw)
        == p2.grid[y][x].take(bw) by {
        if p1.grid[y][x] != m1.grid[y][x] || p2.grid[y][x] != m2.grid[y][x] {
            lemma_pixel_written_take(m1.grid[y][x], f, crate::display::scale_color(m1.text_color, font::glyph_for(c)[y - m1.cy as int * CELL_H][x - m1.cx as int * CELL_W]));
            lemma_pixel_written_take(m2.grid[y][x], f, crate::display::scale_color(m1.text_color, font::glyph_for(c)[y - m1.cy as int * CELL_H][x - m1.cx as int * CELL_W]));
        }
    }
    assert forall|g: Seq<Seq<Seq<u8>>>|
        grid_wf(g, info) implies #[trigger] grid_wf(
        crate::display::blit_grid(
            g,
            f,
            m1.text_color,
            font::glyph_for(c),
            m1.cx as int * CELL_W,
            m1.cy as int * CELL_H,
            info.width as int,
        ),
        info,
    ) by {
        let bg = crate::display::blit_grid(
            g,
            f,
            m1.text_color,
            font::glyph_for(c),
            m1.cx as int * CELL_W,
            m1.cy as int * CELL_H,
            info.width as int,
        );
        assert forall|y: int| 0 <= y < bg.len() implies (#[trigger] bg[y]).len() == info.stride
            && forall|x: int| 0 <= x < bg[y].len() ==> (#[trigger] bg[y][x]).len()
            == info.bytes_per_pixel by {
            assert(g[y].len() == info.stride);
            assert forall|x: int| 0 <= x < bg[y].len() implies (#[trigger] bg[y][x]).len()
                == info.bytes_per_pixel by {
                if bg[y][x] != g[y][x] {
                    lemma_pixel_written_take(
                        g[y][x],
                        f,
                        crate::display::scale_color(
                            m1.text_color,
                            font::glyph_for(c)[y - m1.cy as int * CELL_H][x - m1.cx as int
                                * CELL_W],
                        ),
                    );
                }
            }
        }
    }
    assert(p1.grid.len() == p2.grid.len());
    assert(same_visible(p1.grid, p2.grid, info));
    if c == '\n' {
        if !(m1.cy + 1 < m1.height) {
            lemma_scroll_visible(m1.grid, m2.grid, info, w, h, m1.clear_color);
        }
    } else {
        if !(m1.cx + 1 < m1.width) && !(m1.cy + 1 < m1.height) {
            lemma_scroll_visible(p1.grid, p2.grid, info, w, h, m1.clear_color);
        }
        assert(same_visible(advance_model(p1).grid, advance_model(p2).grid, info));
    }
}

/// Scrolling two visibly equal, well-shaped grids keeps them visibly equal
/// and well-shaped.
proof fn lemma_scroll_visible(
    a: Seq<Seq<Seq<u8>>>,
    b: Seq<Seq<Seq<u8>>>,
    info: SurfaceInfo,
    w: int,
    h: int,
    clear: Color,
)
    requires
        info.wf(),
        grid_wf(a, info),
        grid_wf(b, info),
        same_visible(a, b, info),
        1 <= w && w * CELL_W <= info.width,
        1 <= h && h * CELL_H <= info.height,
    ensures
        same_visible(scroll_grid(a, info, w, h, clear), scroll_grid(b, info, w, h, clear), info),
        grid_wf(scroll_grid(a, info, w, h, clear), info),
        grid_wf(scroll_grid(b, info, w, h, clear), info),
{
    let f = info.format;
    let bw = crate::display::bytes_of_format(f);
    let sa = scroll_grid(a, info, w, h, clear);
    let sb = scroll_grid(b, info, w, h, clear);
    assert forall|y: int| 0 <= y < sa.len() implies (#[trigger] sa[y]).len() == info.stride
        && sb[y].len() == info.stride && forall|x: int|
        0 <= x < info.stride ==> (#[trigger] sa[y][x]).len() == info.bytes_per_pixel
            && sb[y][x].len() == info.bytes_per_pixel by {
        assert forall|x: int| 0 <= x < info.stride implies (#[trigger] sa[y][x]).len()
            == info.bytes_per_pixel && sb[y][x].len() == info.bytes_per_pixel by {
            if (h - 1) * CELL_H <= y < h * CELL_H {
                if 0 <= x < info.width {
                    lemma_pixel_written_take(a[y][x], f, clear);
                    lemma_pixel_written_take(b[y][x], f, clear);
                }
            }
        }
    }
    assert forall|y: int, x: int|
        0 <= y < sa.len() && 0 <= x < info.width implies (#[trigger] sa[y][x]).take(bw)
        == sb[y][x].take(bw) by {
        if 0 <= y < (h - 1) * CELL_H {
            assert(y + CELL_H < h * CELL_H <= info.height);
        } else if (h - 1) * CELL_H <= y < h * CELL_H {
            lemma_pixel_written_take(a[y][x], f, clear);
            lemma_pixel_written_take(b[y][x], f, clear);
        }
    }
    assert(same_visible(sa, sb, info));
}

/// Re-rendering law: writing the same characters to two consoles that share
/// a configuration and cursor and agree on every visible cell ends with
/// equal cursors and visibly equal content, whatever the surfaces held in
/// their alignment padding.
pub proof fn lemma_write_model_rerender(m1: ConsoleModel, m2: ConsoleModel, s: Seq<char>)
    requires
        wf_model(m1),
        wf_model(m2),
        same_config(m1, m2),
        m1.cx == m2.cx,
        m1.cy == m2.cy,
        same_visible(m1.grid, m2.grid, m1.info),
    ensures
        wf_model(write_model(m1, s)),
        wf_model(write_model(m2, s)),
        same_config(write_model(m1, s), m1),
        same_config(write_model(m2, s), m2),
        same_config(write_model(m1, s), write_model(m2, s)),
        write_model(m1, s).cx == write_model(m2, s).cx,
        write_model(m1, s).cy == write_model(m2, s).cy,
        same_visible(write_model(m1, s).grid, write_model(m2, s).grid, m1.info),
    decreases s.len(),
{
    if s.len() == 0 {
    } else {
        lemma_write_model_rerender(m1, m2, s.drop_last());
        lemma_write_char_rerender(write_model(m1, s.drop_last()), write_model(m2, s.drop_last()), s.last());
    }
}

/// A console whose cursor is at the home position and whose every visible
/// pixel encodes the background color.
pub open spec fn cleared_at_home(m: ConsoleModel) -> bool {
    &&& m.cx == 0
    &&& m.cy == 0
    &&& forall|y: int, x: int|
        0 <= y < m.grid.len() && 0 <= x < m.info.width ==> (#[trigger] m.grid[y][x]).take(
            crate::display::bytes_of_format(m.info.format),
        ) == crate::display::encode_color(m.info.format, m.clear_color)
}

/// Re-rendering is idempotent: writing a string to a freshly cleared
/// console from the home position always produces the same cursor
/// end-position and the same visible cells, for any two starting surface
/// contents.
pub proof fn lemma_write_text_rerender(m1: ConsoleModel, m2: ConsoleModel, s: Seq<char>)
    requires
        wf_model(m1),
        wf_model(m2),
        same_config(m1, m2),
        cleared_at_home(m1),
        cleared_at_home(m2),
    ensures
        write_model(m1, s).cx == write_model(m2, s).cx,
        write_model(m1, s).cy == write_model(m2, s).cy,
        same_visible(write_model(m1, s).grid, write_model(m2, s).grid, m1.info),
{
    assert(same_visible(m1.grid, m2.grid, m1.info));
    lemma_write_model_rerender(m1, m2, s);
}

/// Clearing the surface and homing the cursor puts a console in the state
/// the re-rendering law starts from.
pub proof fn lemma_clear_home_is_cleared(m: ConsoleModel)
    requires
        wf_model(m),
    ensures
        cleared_at_home(
            ConsoleModel {
                grid: fill_rect_grid(
                    m.grid,
                    m.info.format,
                    m.clear_color,
                    0,
                    m.info.width as int,
                    0,
                    m.info.height as int,
                ),
                cx: 0,
                cy: 0,
                ..m
            },
        ),
{
    let g = fill_rect_grid(
        m.grid,
        m.info.format,
        m.clear_color,
        0,
        m.info.width as int,
        0,
        m.info.height as int,
    );
    assert forall|y: int, x: int| 0 <= y < g.len() && 0 <= x < m.info.width implies (
    #[trigger] g[y][x]).take(crate::display::bytes_of_format(m.info.format))
        == crate::display::encode_color(m.info.format, m.clear_color) by {
        lemma_pixel_written_take(m.grid[y][x], m.info.format, m.clear_color);
    }
}

/// A scrolling character console on top of a pixel surface.
pub struct TextDisplay {
    cursor: Point,
    width: usize,
    height: usize,
    clear_color: Color,
    text_color: Color,
    display: Display,
}

impl View for TextDisplay {
    type V = ConsoleModel;

    closed spec fn view(&self) -> ConsoleModel {
        ConsoleModel {
            info: self.display.spec_info(),
            width: self.width as nat,
            height: self.height as nat,
            clear_color: self.clear_color,
            text_color: self.text_color,
            grid: self.display.grid(),
            cx: self.cursor.0 as nat,
            cy: self.cursor.1 as nat,
        }
    }
}

impl TextDisplay {
    /// The underlying surface is intact and the model is well-formed.
    pub open spec fn wf(&self) -> bool {
        &&& self.inv()
        &&& wf_model(self@)
    }

    /// The surface buffer matches its geometry.
    pub closed spec fn inv(&self) -> bool {
        self.display.wf()
    }

    /// Builds a console over a linear pixel buffer. The character grid size
    /// is derived once from the surface geometry and the glyph cell size.
    pub fn new(buf: Vec<u8>, info: SurfaceInfo, clear_color: Color, text_color: Color) -> (r:
        TextDisplay)
        requires
            info.wf(),
            buf@.len() == info.area(),
            CELL_W <= info.width,
            CELL_H <= info.height,
        ensures
            r.wf(),
            r@.info == info,
            r@.width == info.width as int / CELL_W as int,
            r@.height == info.height as int / CELL_H as int,
            r@.clear_color == clear_color,
            r@.text_color == text_color,
            r@.cx == 0 && r@.cy == 0,
            r@.grid == grid_of(buf@, info),
    {
        let ghost b = buf@;
        let display = Display::new(buf, info);
        let cw = font::cell_width();
        let width = info.width / cw;
        let height = info.height / CELL_H;
        proof {
            crate::display::lemma_grid_of_wf(b, info);
            assert(1 <= info.width as int / CELL_W as int && (info.width as int / CELL_W as int)
                * CELL_W <= info.width) by (nonlinear_arith)
                requires
                    CELL_W == 9,
                    9 <= info.width,
            ;
            assert(1 <= info.height as int / CELL_H as int && (info.height as int / CELL_H as int)
                * CELL_H <= info.height) by (nonlinear_arith)
                requires
                    CELL_H == 20,
                    20 <= info.height,
            ;
        }
        TextDisplay { cursor: Point(0, 0), width, height, clear_color, text_color, display }
    }

    /// The cursor position, in character cells.
    pub fn cursor(&self) -> (r: Point)
        ensures
            r.0 == self@.cx,
            r.1 == self@.cy,
    {
        self.cursor
    }

    /// Columns in the character grid.
    pub fn grid_width(&self) -> (r: usize)
        ensures
            r == self@.width,
    {
        self.width
    }

    /// Rows in the character grid.
    pub fn grid_height(&self) -> (r: usize)
        ensures
            r == self@.height,
    {
        self.height
    }

    /// A copy of the raw surface bytes.
    pub fn snapshot(&self) -> (r: Vec<u8>)
        requires
            self.wf(),
        ensures
            grid_of(r@, self@.info) == self@.grid,
    {
        self.display.snapshot()
    }

    /// The stored channel bytes of one pixel.
    pub fn read_pixel(&self, position: Point) -> (r: Vec<u8>)
        requires
            self.wf(),
            position.0 < self@.info.stride,
            position.1 < self@.info.height,
        ensures
            r@ == self@.grid[position.1 as int][position.0 as int].take(
                crate::display::bytes_of_format(self@.info.format),
            ),
    {
        self.display.read_pixel(position)
    }

    /// Moves the cursor to a cell of the character grid.
    pub fn move_cursor(&mut self, position: Point)
        requires
            old(self).wf(),
            position.0 < old(self)@.width,
            position.1 < old(self)@.height,
        ensures
            final(self).wf(),
            final(self)@ == (ConsoleModel {
                cx: position.0 as nat,
                cy: position.1 as nat,
                ..old(self)@
            }),
    {
        self.cursor = position;
    }

    /// Sets the background color used by clears and scrolling.
    pub fn set_clear_color(&mut self, color: Color)
        requires
            old(self).wf(),
        ensures
            final(self).wf(),
            final(self)@ == (ConsoleModel { clear_color: color, ..old(self)@ }),
    {
        self.clear_color = color;
    }

    /// Sets the color glyphs are drawn in.
    pub fn set_text_color(&mut self, color: Color)
        requires
            old(self).wf(),
        ensures
            final(self).wf(),
            final(self)@ == (ConsoleModel { text_color: color, ..old(self)@ }),
    {
        self.text_color = color;
    }

    /// Fills the whole surface with the background color. The cursor does
    /// not move.
    pub fn clear(&mut self)
        requires
            old(self).wf(),
        ensures
            final(self).wf(),
            final(self)@ == (ConsoleModel {
                grid: fill_rect_grid(
                    old(self)@.grid,
                    old(self)@.info.format,
                    old(self)@.clear_color,
                    0,
                    old(self)@.info.width as int,
                    0,
                    old(self)@.info.height as int,
                ),
                ..old(self)@
            }),
    {
        let color = self.clear_color;
        self.display.clear(color);
    }

    /// Fills exactly one character row with the background color.
    pub fn clear_line(&mut self, line: usize)
        requires
            old(self).wf(),
            line < old(self)@.height,
        ensures
            final(self).wf(),
            final(self)@ == (ConsoleModel {
                grid: fill_rect_grid(
                    old(self)@.grid,
                    old(self)@.info.format,
                    old(self)@.clear_color,
                    0,
                    old(self)@.info.width as int,
                    line as int * CELL_H,
                    line as int * CELL_H + CELL_H,
                ),
                ..old(self)@
            }),
    {
        let min_y = line * CELL_H;
        let max_y = min_y + CELL_H;
        let color = self.clear_color;
        let width = self.display.surface_info().width;
        self.display.draw_rect(color, Point(0, min_y), Point(width, max_y));
    }

    /// Copies one character row's pixel content onto another row.
    pub fn copy_line(&mut self, src: usize, dst: usize)
        requires
            old(self).wf(),
            src < old(self)@.height,
            dst < old(self)@.height,
            src != dst,
        ensures
            final(self).wf(),
            final(self)@ == (ConsoleModel {
                grid: copy_rect_grid(
                    old(self)@.grid,
                    0,
                    src as int * CELL_H,
                    0,
                    dst as int * CELL_H,
                    old(self)@.width as int * CELL_W,
                    CELL_H as int,
                ),
                ..old(self)@
            }),
    {
        let src_y = src * CELL_H;
        let dst_y = dst * CELL_H;
        let w = self.width * CELL_W;
        self.display.copy_rect(Point(0, src_y), Point(0, dst_y), w, CELL_H);
    }

    /// Shifts every character row's pixel content up by one row, clears the
    /// newly exposed last row to the background color, and moves the cursor
    /// up one row unless it is already at the top.
    pub fn scroll_down(&mut self)
        requires
            old(self).wf(),
        ensures
            final(self).wf(),
            final(self)@ == (ConsoleModel {
                grid: scroll_grid(
                    old(self)@.grid,
                    old(self)@.info,
                    old(self)@.width as int,
                    old(self)@.height as int,
                    old(self)@.clear_color,
                ),
                cy: if old(self)@.cy == 0 {
                    0
                } else {
                    (old(self)@.cy - 1) as nat
                },
                ..old(self)@
            }),
    {
        let ghost m0 = self@;
        let ghost g0 = m0.grid;
        let ghost w = m0.width as int;
        let ghost h = m0.height as int;
        proof {
            assert(self@.grid =~~= scroll_top(g0, w, 0));
        }
        let mut line: usize = 1;
        while line < self.height
            invariant
                self.wf(),
                1 <= line <= self.height,
                self@ == (ConsoleModel { grid: scroll_top(g0, w, line - 1), ..m0 }),
                wf_model(m0),
                g0 == m0.grid && w == m0.width && h == m0.height,
                self.height == m0.height,
            decreases self.height - line,
        {
            let ghost gcur = self@.grid;
            self.copy_line(line, line - 1);
            proof {
                let li = line as int;
                assert(copy_rect_grid(
                    gcur,
                    0,
                    li * CELL_H,
                    0,
                    (li - 1) * CELL_H,
                    w * CELL_W,
                    CELL_H as int,
                ) =~~= scroll_top(g0, w, li));
            }
            line = line + 1;
        }
        let last = self.height - 1;
        let ghost gtop = self@.grid;
        self.clear_line(last);
        proof {
            assert(fill_rect_grid(
                gtop,
                m0.info.format,
                m0.clear_color,
                0,
                m0.info.width as int,
                (h - 1) * CELL_H,
                (h - 1) * CELL_H + CELL_H,
            ) =~~= scroll_grid(g0, m0.info, w, h, m0.clear_color));
        }
        if self.cursor.1 != 0 {
            self.cursor.1 = self.cursor.1 - 1;
        }
    }

    /// Advances the cursor one cell, wrapping at the grid width and
    /// scrolling instead of leaving the last row.
    pub fn increment_cursor_pos(&mut self)
        requires
            old(self).wf(),
        ensures
            final(self).wf(),
            final(self)@ == advance_model(old(self)@),
    {
        if self.cursor.0 + 1 < self.width {
            self.cursor.0 = self.cursor.0 + 1;
        } else if self.cursor.1 + 1 < self.height {
            self.cursor.0 = 0;
            self.cursor.1 = self.cursor.1 + 1;
        } else {
            self.cursor.0 = 0;
            self.scroll_down();
            self.cursor.1 = self.height - 1;
        }
    }

    /// Moves the cursor to the start of the next row, scrolling at the
    /// last row.
    pub fn cursor_new_line(&mut self)
        requires
            old(self).wf(),
        ensures
            final(self).wf(),
            final(self)@ == newline_model(old(self)@),
    {
        if self.cursor.1 + 1 < self.height {
            self.cursor.0 = 0;
            self.cursor.1 = self.cursor.1 + 1;
        } else {
            self.cursor.0 = 0;
            self.scroll_down();
            self.cursor.1 = self.height - 1;
        }
    }

    /// Writes one character at the cursor: a line break moves the cursor to
    /// the next row, anything else is rasterized and advances the cursor.
    pub fn write_char(&mut self, c: char)
        requires
            old(self).wf(),
        ensures
            final(self).wf(),
            final(self)@ == write_char_model(old(self)@, c),
    {
        if c == '\n' {
            self.cursor_new_line();
        } else {
            let x = self.cursor.0 * CELL_W;
            let y = self.cursor.1 * CELL_H;
            let color = self.text_color;
            proof {
                assert(self.cursor.0 as int * CELL_W + CELL_W <= self@.width * CELL_W);
                assert(self.cursor.1 as int * CELL_H + CELL_H <= self@.height * CELL_H);
            }
            self.display.putc(c, color, Point(x, y));
            self.increment_cursor_pos();
        }
    }

    /// Appends text at the cursor, handling embedded line breaks, wrapping
    /// at the grid width and scrolling past the last row.
    pub fn write_text(&mut self, text: &str)
        requires
            old(self).wf(),
        ensures
            final(self).wf(),
            final(self)@ == write_model(old(self)@, text@),
    {
        let n = text.unicode_len();
        let mut i: usize = 0;
        while i < n
            invariant
                i <= n,
                n == text@.len(),
                self.wf(),
                self@ == write_model(old(self)@, text@.take(i as int)),
            decreases n - i,
        {
            let c = text.get_char(i);
            self.write_char(c);
            proof {
                assert(text@.take(i + 1).drop_last() =~= text@.take(i as int));
                assert(text@.take(i + 1).last() == text@[i as int]);
            }
            i = i + 1;
        }
        proof {
            assert(text@.take(n as int) =~= text@);
        }
    }

    /// Appends characters at the cursor, as `write_text` does.
    pub fn write_chars(&mut self, text: &[char])
        requires
            old(self).wf(),
        ensures
            final(self).wf(),
            final(self)@ == write_model(old(self)@, text@),
    {
        let n = text.len();
        let mut i: usize = 0;
        while i < n
            invariant
                i <= n,
                n == text@.len(),
                self.wf(),
                self@ == write_model(old(self)@, text@.take(i as int)),
            decreases n - i,
        {
            let c = text[i];
            self.write_char(c);
            proof {
                assert(text@.take(i + 1).drop_last() =~= text@.take(i as int));
                assert(text@.take(i + 1).last() == text@[i as int]);
            }
            i = i + 1;
        }
        proof {
            assert(text@.take(n as int) =~= text@);
        }
    }
}

} // verus!
