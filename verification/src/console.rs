//! The double-buffered diff renderer.
//!
//! The application paints each frame into a draw grid; a committed grid
//! mirrors what was last sent to the device.  `Console::draw` walks the cells
//! in row-major order and emits a device command stream that repaints exactly
//! the cells that changed: a cursor move only when the cursor is not already
//! in place (the device advances the cursor by one column after each
//! character), a color set only when the combined color differs from the last
//! one sent, and one character write per changed cell.

use vstd::prelude::*;

use crate::buffer::grid_of;
use crate::buffer::Buffer;
use crate::pixel::attribute;
use crate::pixel::color_attribute;
use crate::pixel::filler_pixel;
use crate::pixel::invalid_pixel;
use crate::pixel::Color;
use crate::pixel::Pixel;

verus! {

/// One write operation for the display device.
#[derive(Clone, Copy, Debug, PartialEq, Eq, Structural)]
pub enum Command {
    /// Put the cursor on column `x` of row `y`.
    MoveCursor(i16, i16),
    /// Use this foreground and background for the characters that follow.
    SetColor(Color, Color),
    /// Show this character at the cursor; the cursor advances one column.
    Write(char),
}

/// The state a commit traversal carries: where the device cursor is, which
/// combined color was last sent, and the commands emitted so far.
pub struct EmitState {
    pub cursor_x: i16,
    pub cursor_y: i16,
    pub color: u16,
    pub cmds: Seq<Command>,
}

/// What one cell of the traversal emits.  An unchanged cell emits nothing; a
/// changed cell emits a cursor move unless the cursor is already in place,
/// a color set unless the combined color was the last one sent, and the
/// character write, after which the cursor sits one column further right.
pub open spec fn cell_step(st: EmitState, f: Pixel, b: Pixel, x: i16, y: i16) -> EmitState {
    if f == b {
        st
    } else {
        let st1 = if st.cursor_x == x && st.cursor_y == y {
            st
        } else {
            EmitState {
                cursor_x: x,
                cursor_y: y,
                color: st.color,
                cmds: st.cmds.push(Command::MoveCursor(x, y)),
            }
        };
        let c = color_attribute(f.fg, f.bg);
        let st2 = if st1.color == c {
            st1
        } else {
            EmitState {
                cursor_x: st1.cursor_x,
                cursor_y: st1.cursor_y,
                color: c,
                cmds: st1.cmds.push(Command::SetColor(f.fg, f.bg)),
            }
        };
        EmitState {
            cursor_x: (x + 1) as i16,
            cursor_y: y,
            color: st2.color,
            cmds: st2.cmds.push(Command::Write(f.character)),
        }
    }
}

/// The state after the first `n` cells of row `y` were traversed.
pub open spec fn row_steps(st: EmitState, fr: Seq<Pixel>, br: Seq<Pixel>, y: i16, n: int) -> EmitState
    decreases n,
{
    if n <= 0 {
        st
    } else {
        cell_step(row_steps(st, fr, br, y, n - 1), fr[n - 1], br[n - 1], (n - 1) as i16, y)
    }
}

/// The state after the first `m` rows, each of width `w`, were traversed.
pub open spec fn grid_steps(
    st: EmitState,
    f: Seq<Seq<Pixel>>,
    b: Seq<Seq<Pixel>>,
    w: int,
    m: int,
) -> EmitState
    decreases m,
{
    if m <= 0 {
        st
    } else {
        row_steps(grid_steps(st, f, b, w, m - 1), f[m - 1], b[m - 1], (m - 1) as i16, w)
    }
}

/// After the traversal the cursor is put back on the origin and the color on
/// the default, each elided when already there.
pub open spec fn finish_steps(st: EmitState) -> EmitState {
    let st1 = if st.cursor_x == 0 && st.cursor_y == 0 {
        st
    } else {
        EmitState {
            cursor_x: 0,
            cursor_y: 0,
            color: st.color,
            cmds: st.cmds.push(Command::MoveCursor(0, 0)),
        }
    };
    if st1.color == color_attribute(Color::White, Color::Black) {
        st1
    } else {
        EmitState {
            cursor_x: st1.cursor_x,
            cursor_y: st1.cursor_y,
            color: color_attribute(Color::White, Color::Black),
            cmds: st1.cmds.push(Command::SetColor(Color::White, Color::Black)),
        }
    }
}

/// The full command stream of one commit of a `w` by `h` frame, starting from
/// the given cursor position and last-sent color.
pub open spec fn draw_commands(
    f: Seq<Seq<Pixel>>,
    b: Seq<Seq<Pixel>>,
    w: int,
    h: int,
    cursor: (i16, i16),
    color: u16,
) -> Seq<Command> {
    finish_steps(
        grid_steps(
            EmitState { cursor_x: cursor.0, cursor_y: cursor.1, color, cmds: Seq::empty() },
            f,
            b,
            w,
            h,
        ),
    ).cmds
}

/// The renderer: a draw grid the application paints into, a committed grid
/// mirroring the last frame sent to the device, and the cursor position and
/// color the device was last told.  The two grids always have the same
/// dimensions.
pub struct Console {
    front_buffer: Buffer,
    back_buffer: Buffer,
    width: i16,
    height: i16,
    cursor_x: i16,
    cursor_y: i16,
    text_color: u16,
}

impl Console {
    /// The draw grid the application paints into.
    pub closed spec fn front(&self) -> Seq<Seq<Pixel>> {
        self.front_buffer@
    }

    /// The committed grid: what the device currently shows.
    pub closed spec fn back(&self) -> Seq<Seq<Pixel>> {
        self.back_buffer@
    }

    pub closed spec fn spec_width(&self) -> i16 {
        self.width
    }

    pub closed spec fn spec_height(&self) -> i16 {
        self.height
    }

    /// Where the device cursor is, counting the automatic advance after each
    /// character write.
    pub closed spec fn cursor(&self) -> (i16, i16) {
        (self.cursor_x, self.cursor_y)
    }

    /// The combined color attribute last sent to the device.
    pub closed spec fn color(&self) -> u16 {
        self.text_color
    }

    /// Both grids are rectangles of the stated dimensions.
    pub open spec fn wf(&self) -> bool {
        &&& 0 <= self.spec_width()
        &&& 0 <= self.spec_height()
        &&& self.front().len() == self.spec_height()
        &&& self.back().len() == self.spec_height()
        &&& forall|y: int|
            0 <= y < self.spec_height() ==> (#[trigger] self.front()[y]).len() == self.spec_width()
        &&& forall|y: int|
            0 <= y < self.spec_height() ==> (#[trigger] self.back()[y]).len() == self.spec_width()
    }

    /// A renderer with no cells yet; `resize` gives it its dimensions.  The
    /// remembered cursor and color are values the device never holds, so the
    /// first commit establishes both explicitly.
    pub fn new() -> (c: Console)
        ensures
            c.wf(),
            c.spec_width() == 0,
            c.spec_height() == 0,
            c.cursor() == (-2i16, -2i16),
            c.color() == 255u16,
    {
        Console {
            front_buffer: Buffer::new(),
            back_buffer: Buffer::new(),
            width: 0,
            height: 0,
            cursor_x: -2,
            cursor_y: -2,
            text_color: 255,
        }
    }

    /// The current grid dimensions, columns first.
    pub fn dimensions(&self) -> (d: (i16, i16))
        ensures
            d == (self.spec_width(), self.spec_height()),
    {
        (self.width, self.height)
    }

    /// Paints one cell of the draw grid.  Coordinates outside the grid are a
    /// programming error and are excluded outright.
    pub fn pixel(&mut self, x: i16, y: i16, pixel: Pixel)
        requires
            old(self).wf(),
            0 <= x < old(self).spec_width(),
            0 <= y < old(self).spec_height(),
        ensures
            final(self).wf(),
            final(self).front() == old(self).front().update(
                y as int,
                old(self).front()[y as int].update(x as int, pixel),
            ),
            final(self).back() == old(self).back(),
            final(self).spec_width() == old(self).spec_width(),
            final(self).spec_height() == old(self).spec_height(),
            final(self).cursor() == old(self).cursor(),
            final(self).color() == old(self).color(),
    {
        self.front_buffer.set(x, y, pixel);
        proof {
            assert(self.front() =~= old(self).front().update(
                y as int,
                old(self).front()[y as int].update(x as int, pixel),
            ));
        }
    }

    /// Draws `text` left to right starting at `(x, y)` in white on black,
    /// stopping silently at the right edge.
    pub fn text(&mut self, x: i16, y: i16, text: &str)
        requires
            old(self).wf(),
            0 <= x <= old(self).spec_width(),
            0 <= y < old(self).spec_height(),
        ensures
            final(self).wf(),
            written_row(
                final(self).front()[y as int],
                old(self).front()[y as int],
                x as int,
                text@,
                Color::White,
                Color::Black,
            ),
            forall|r: int|
                0 <= r < old(self).spec_height() && r != y ==> #[trigger] final(self).front()[r]
                    == old(self).front()[r],
            final(self).back() == old(self).back(),
            final(self).spec_width() == old(self).spec_width(),
            final(self).spec_height() == old(self).spec_height(),
            final(self).cursor() == old(self).cursor(),
            final(self).color() == old(self).color(),
    {
        self.text_ext(x, y, text, Color::White, Color::Black);
    }

    /// Draws `text` left to right starting at `(x, y)` in the given colors.
    /// Writing stops silently once the right edge is reached: no wrapping,
    /// no error, exactly the characters that fit are written.
    pub fn text_ext(&mut self, x: i16, y: i16, text: &str, fg: Color, bg: Color)
        requires
            old(self).wf(),
            0 <= x <= old(self).spec_width(),
            0 <= y < old(self).spec_height(),
        ensures
            final(self).wf(),
            written_row(
                final(self).front()[y as int],
                old(self).front()[y as int],
                x as int,
                text@,
                fg,
                bg,
            ),
            forall|r: int|
                0 <= r < old(self).spec_height() && r != y ==> #[trigger] final(self).front()[r]
                    == old(self).front()[r],
            final(self).back() == old(self).back(),
            final(self).spec_width() == old(self).spec_width(),
            final(self).spec_height() == old(self).spec_height(),
            final(self).cursor() == old(self).cursor(),
            final(self).color() == old(self).color(),
    {
        let chars = str_chars(text);
        let mut i: usize = 0;
        let mut cx: i16 = x;
        while i < chars.len() && cx < self.width
            invariant
                self.wf(),
                0 <= x,
                x <= cx <= self.spec_width(),
                cx - x == i,
                i <= chars@.len(),
                chars@ == text@,
                0 <= y < self.spec_height(),
                i < chars@.len() ==> cx <= self.spec_width(),
                self.spec_width() == old(self).spec_width(),
                self.spec_height() == old(self).spec_height(),
                self.back() == old(self).back(),
                self.cursor() == old(self).cursor(),
                self.color() == old(self).color(),
                forall|j: int|
                    0 <= j < i ==> #[trigger] self.front()[y as int][x + j] == (Pixel {
                        character: text@[j],
                        fg,
                        bg,
                    }),
                forall|c: int|
                    0 <= c < self.spec_width() && !(x <= c < x + i)
                        ==> #[trigger] self.front()[y as int][c] == old(self).front()[y as int][c],
                forall|r: int|
                    0 <= r < self.spec_height() && r != y ==> #[trigger] self.front()[r]
                        == old(self).front()[r],
            decreases chars@.len() - i,
        {
            let c = chars[i];
            let ghost prev_front = self.front();
            self.pixel(cx, y, Pixel::new(c, fg, bg));
            proof {
                assert(self.front()[y as int].len() == self.spec_width());
                assert forall|j: int| 0 <= j < i + 1 implies #[trigger] self.front()[y as int][x
                    + j] == (Pixel { character: text@[j], fg, bg }) by {
                    if j < i {
                        assert(prev_front[y as int][x + j] == (Pixel {
                            character: text@[j],
                            fg,
                            bg,
                        }));
                    }
                }
            }
            cx = cx + 1;
            i = i + 1;
        }
    }

    /// Resizes both grids to the device's reported size, keeping the overlap
    /// of the old draw grid, and invalidates the committed grid so the next
    /// commit repaints every cell: a frame equal to what a stale committed
    /// grid happens to hold must not be suppressed after a resize.
    pub fn resize(&mut self, width: i16, height: i16)
        requires
            old(self).wf(),
            0 <= width,
            0 <= height,
        ensures
            final(self).wf(),
            final(self).spec_width() == width,
            final(self).spec_height() == height,
            final(self).back() == grid_of(width as int, height as int, invalid_pixel()),
            final(self).front().len() == height as int,
            forall|y: int, x: int|
                0 <= y < height && 0 <= x < width ==> #[trigger] final(self).front()[y][x] == (if y
                    < old(self).spec_height() && x < old(self).spec_width() {
                    old(self).front()[y][x]
                } else {
                    filler_pixel()
                }),
            final(self).cursor() == old(self).cursor(),
            final(self).color() == old(self).color(),
    {
        self.front_buffer.resize(width, height);
        self.back_buffer.resize(width, height);
        self.width = width;
        self.height = height;
        self.reset_back_buffer();
    }

    /// Fills the committed grid with a cell value no frame can show, so that
    /// the next commit considers every cell changed.
    pub fn reset_back_buffer(&mut self)
        requires
            old(self).wf(),
        ensures
            final(self).wf(),
            final(self).back() == grid_of(
                old(self).spec_width() as int,
                old(self).spec_height() as int,
                invalid_pixel(),
            ),
            final(self).front() == old(self).front(),
            final(self).spec_width() == old(self).spec_width(),
            final(self).spec_height() == old(self).spec_height(),
            final(self).cursor() == old(self).cursor(),
            final(self).color() == old(self).color(),
    {
        self.back_buffer.fill(Pixel::invalid());
        proof {
            assert(self.back() =~~= grid_of(
                old(self).spec_width() as int,
                old(self).spec_height() as int,
                invalid_pixel(),
            ));
        }
    }

    /// Emits a cursor move unless the device cursor already sits on `(x, y)`.
    pub fn move_cursor(&mut self, x: i16, y: i16, out: &mut Vec<Command>)
        ensures
            final(self).cursor() == (x, y),
            final(out)@ == (if old(self).cursor() == (x, y) {
                old(out)@
            } else {
                old(out)@.push(Command::MoveCursor(x, y))
            }),
            final(self).color() == old(self).color(),
            final(self).front() == old(self).front(),
            final(self).back() == old(self).back(),
            final(self).spec_width() == old(self).spec_width(),
            final(self).spec_height() == old(self).spec_height(),
    {
        if self.cursor_x == x && self.cursor_y == y {
            return ;
        }
        out.push(Command::MoveCursor(x, y));
        self.cursor_x = x;
        self.cursor_y = y;
    }

    /// Emits a color set unless the combined attribute of `fg` and `bg` is
    /// the one last sent; identical consecutive color sets are never emitted.
    pub fn set_text_color(&mut self, fg: Color, bg: Color, out: &mut Vec<Command>)
        ensures
            final(self).color() == color_attribute(fg, bg),
            final(out)@ == (if old(self).color() == color_attribute(fg, bg) {
                old(out)@
            } else {
                old(out)@.push(Command::SetColor(fg, bg))
            }),
            final(self).cursor() == old(self).cursor(),
            final(self).front() == old(self).front(),
            final(self).back() == old(self).back(),
            final(self).spec_width() == old(self).spec_width(),
            final(self).spec_height() == old(self).spec_height(),
    {
        let color = attribute(fg, bg);
        if self.text_color != color {
            out.push(Command::SetColor(fg, bg));
            self.text_color = color;
        }
    }

    /// Commits the frame: emits the minimal command stream that brings the
    /// device from the committed grid to the draw grid, then parks the cursor
    /// on the origin and the color on the default, copies the draw grid into
    /// the committed grid, and clears the draw grid to the filler for the
    /// next frame.
    pub fn draw(&mut self) -> (cmds: Vec<Command>)
        requires
            old(self).wf(),
        ensures
            final(self).wf(),
            cmds@ == draw_commands(
                old(self).front(),
                old(self).back(),
                old(self).spec_width() as int,
                old(self).spec_height() as int,
                old(self).cursor(),
                old(self).color(),
            ),
            final(self).back() == old(self).front(),
            final(self).front() == grid_of(
                old(self).spec_width() as int,
                old(self).spec_height() as int,
                filler_pixel(),
            ),
            final(self).spec_width() == old(self).spec_width(),
            final(self).spec_height() == old(self).spec_height(),
            final(self).cursor() == (0i16, 0i16),
            final(self).color() == color_attribute(Color::White, Color::Black),
    {
        let ghost st0 = EmitState {
            cursor_x: old(self).cursor().0,
            cursor_y: old(self).cursor().1,
            color: old(self).color(),
            cmds: Seq::<Command>::empty(),
        };
        let ghost f = old(self).front();
        let ghost b = old(self).back();
        let ghost w = old(self).spec_width() as int;
        let mut cmds: Vec<Command> = Vec::new();
        let mut y: i16 = 0;
        while y < self.height
            invariant
                self.wf(),
                0 <= y <= self.spec_height(),
                f == self.front(),
                b == self.back(),
                w == self.spec_width() as int,
                self.spec_height() == old(self).spec_height(),
                grid_steps(st0, f, b, w, y as int) == (EmitState {
                    cursor_x: self.cursor().0,
                    cursor_y: self.cursor().1,
                    color: self.color(),
                    cmds: cmds@,
                }),
            decreases self.spec_height() - y,
        {
            let ghost row_st = grid_steps(st0, f, b, w, y as int);
            let mut x: i16 = 0;
            while x < self.width
                invariant
                    self.wf(),
                    0 <= x <= self.spec_width(),
                    0 <= y < self.spec_height(),
                    f == self.front(),
                    b == self.back(),
                    w == self.spec_width() as int,
                    self.spec_height() == old(self).spec_height(),
                    row_st == grid_steps(st0, f, b, w, y as int),
                    row_steps(row_st, f[y as int], b[y as int], y, x as int) == (EmitState {
                        cursor_x: self.cursor().0,
                        cursor_y: self.cursor().1,
                        color: self.color(),
                        cmds: cmds@,
                    }),
                decreases self.spec_width() - x,
            {
                let fp = self.front_buffer.get(x, y);
                let bp = self.back_buffer.get(x, y);
                if fp != bp {
                    self.move_cursor(x, y, &mut cmds);
                    self.set_text_color(fp.fg, fp.bg, &mut cmds);
                    cmds.push(Command::Write(fp.character));
                    self.cursor_x = x + 1;
                    self.cursor_y = y;
                }
                x = x + 1;
            }
            y = y + 1;
        }
        self.move_cursor(0, 0, &mut cmds);
        self.set_text_color(Color::White, Color::Black, &mut cmds);
        proof {
            assert(cmds@ == draw_commands(f, b, w, old(self).spec_height() as int, old(self).cursor(), old(self).color()));
        }
        self.back_buffer = self.front_buffer.clone();
        self.front_buffer.clear();
        proof {
            assert(self.front() =~~= grid_of(
                old(self).spec_width() as int,
                old(self).spec_height() as int,
                filler_pixel(),
            ));
        }
        cmds
    }
}

/// Row `now` shows `text` painted over row `was` starting at column `start`:
/// exactly the characters that fit before the row's right edge were written,
/// every other cell of the row is untouched.
pub open spec fn written_row(
    now: Seq<Pixel>,
    was: Seq<Pixel>,
    start: int,
    text: Seq<char>,
    fg: Color,
    bg: Color,
) -> bool {
    let n = if text.len() <= was.len() - start {
        text.len() as int
    } else {
        was.len() - start
    };
    &&& now.len() == was.len()
    &&& forall|j: int|
        0 <= j < n ==> #[trigger] now[start + j] == (Pixel { character: text[j], fg, bg })
    &&& forall|c: int| 0 <= c < was.len() && !(start <= c < start + n) ==> #[trigger] now[c] == was[c]
}

/// How many character writes a command stream holds.
pub open spec fn write_count(cmds: Seq<Command>) -> int
    decreases cmds.len(),
{
    if cmds.len() == 0 {
        0
    } else {
        write_count(cmds.drop_last()) + (if cmds.last() is Write {
            1int
        } else {
            0int
        })
    }
}

/// How many cursor moves a command stream holds.
pub open spec fn move_count(cmds: Seq<Command>) -> int
    decreases cmds.len(),
{
    if cmds.len() == 0 {
        0
    } else {
        move_count(cmds.drop_last()) + (if cmds.last() is MoveCursor {
            1int
        } else {
            0int
        })
    }
}

/// The positions of the changed cells among the first `n` of row `y`, in
/// traversal order.
pub open spec fn row_diff_positions(fr: Seq<Pixel>, br: Seq<Pixel>, y: i16, n: int) -> Seq<
    (i16, i16),
>
    decreases n,
{
    if n <= 0 {
        Seq::empty()
    } else {
        row_diff_positions(fr, br, y, n - 1) + (if fr[n - 1] == br[n - 1] {
            Seq::<(i16, i16)>::empty()
        } else {
            seq![(((n - 1) as i16), y)]
        })
    }
}

/// The positions of the changed cells of the first `m` rows, row-major.
pub open spec fn grid_diff_positions(f: Seq<Seq<Pixel>>, b: Seq<Seq<Pixel>>, w: int, m: int) -> Seq<
    (i16, i16),
>
    decreases m,
{
    if m <= 0 {
        Seq::empty()
    } else {
        grid_diff_positions(f, b, w, m - 1) + row_diff_positions(f[m - 1], b[m - 1], (m - 1) as i16, w)
    }
}

proof fn lemma_write_count_push(s: Seq<Command>, c: Command)
    ensures
        write_count(s.push(c)) == write_count(s) + (if c is Write {
            1int
        } else {
            0int
        }),
{
    assert(s.push(c).drop_last() =~= s);
}

proof fn lemma_move_count_push(s: Seq<Command>, c: Command)
    ensures
        move_count(s.push(c)) == move_count(s) + (if c is MoveCursor {
            1int
        } else {
            0int
        }),
{
    assert(s.push(c).drop_last() =~= s);
}

proof fn lemma_cell_step_writes(st: EmitState, f: Pixel, b: Pixel, x: i16, y: i16)
    ensures
        write_count(cell_step(st, f, b, x, y).cmds) == write_count(st.cmds) + (if f == b {
            0int
        } else {
            1int
        }),
{
    if f != b {
        let st1 = if st.cursor_x == x && st.cursor_y == y {
            st
        } else {
            EmitState {
                cursor_x: x,
                cursor_y: y,
                color: st.color,
                cmds: st.cmds.push(Command::MoveCursor(x, y)),
            }
        };
        let c = color_attribute(f.fg, f.bg);
        let st2 = if st1.color == c {
            st1
        } else {
            EmitState {
                cursor_x: st1.cursor_x,
                cursor_y: st1.cursor_y,
                color: c,
                cmds: st1.cmds.push(Command::SetColor(f.fg, f.bg)),
            }
        };
        lemma_write_count_push(st.cmds, Command::MoveCursor(x, y));
        lemma_write_count_push(st1.cmds, Command::SetColor(f.fg, f.bg));
        lemma_write_count_push(st2.cmds, Command::Write(f.character));
    }
}

proof fn lemma_row_writes(st: EmitState, fr: Seq<Pixel>, br: Seq<Pixel>, y: i16, n: int)
    ensures
        write_count(row_steps(st, fr, br, y, n).cmds) == write_count(st.cmds)
            + row_diff_positions(fr, br, y, n).len(),
    decreases n,
{
    if n > 0 {
        lemma_row_writes(st, fr, br, y, n - 1);
        lemma_cell_step_writes(row_steps(st, fr, br, y, n - 1), fr[n - 1], br[n - 1], (n - 1) as i16, y);
    }
}

proof fn lemma_grid_writes(st: EmitState, f: Seq<Seq<Pixel>>, b: Seq<Seq<Pixel>>, w: int, m: int)
    ensures
        write_count(grid_steps(st, f, b, w, m).cmds) == write_count(st.cmds)
            + grid_diff_positions(f, b, w, m).len(),
    decreases m,
{
    if m > 0 {
        lemma_grid_writes(st, f, b, w, m - 1);
        lemma_row_writes(grid_steps(st, f, b, w, m - 1), f[m - 1], b[m - 1], (m - 1) as i16, w);
    }
}

proof fn lemma_finish_writes(st: EmitState)
    ensures
        write_count(finish_steps(st).cmds) == write_count(st.cmds),
{
    let st1 = if st.cursor_x == 0 && st.cursor_y == 0 {
        st
    } else {
        EmitState {
            cursor_x: 0,
            cursor_y: 0,
            color: st.color,
            cmds: st.cmds.push(Command::MoveCursor(0, 0)),
        }
    };
    lemma_write_count_push(st.cmds, Command::MoveCursor(0, 0));
    lemma_write_count_push(st1.cmds, Command::SetColor(Color::White, Color::Black));
}

/// Diff minimality: one commit emits exactly one character write per cell on
/// which the draw grid and the committed grid disagree, and none at all when
/// the two grids are equal.
pub proof fn lemma_diff_minimality(
    f: Seq<Seq<Pixel>>,
    b: Seq<Seq<Pixel>>,
    w: int,
    h: int,
    cursor: (i16, i16),
    color: u16,
)
    ensures
        write_count(draw_commands(f, b, w, h, cursor, color)) == grid_diff_positions(
            f,
            b,
            w,
            h,
        ).len(),
{
    let st0 = EmitState { cursor_x: cursor.0, cursor_y: cursor.1, color, cmds: Seq::empty() };
    lemma_grid_writes(st0, f, b, w, h);
    lemma_finish_writes(grid_steps(st0, f, b, w, h));
}

proof fn lemma_row_equal_no_diff(fr: Seq<Pixel>, br: Seq<Pixel>, y: i16, n: int)
    requires
        forall|x: int| 0 <= x < n ==> fr[x] == br[x],
    ensures
        row_diff_positions(fr, br, y, n).len() == 0,
    decreases n,
{
    if n > 0 {
        lemma_row_equal_no_diff(fr, br, y, n - 1);
    }
}

proof fn lemma_grid_equal_no_diff(f: Seq<Seq<Pixel>>, w: int, m: int)
    ensures
        grid_diff_positions(f, f, w, m).len() == 0,
    decreases m,
{
    if m > 0 {
        lemma_grid_equal_no_diff(f, w, m - 1);
        lemma_row_equal_no_diff(f[m - 1], f[m - 1], (m - 1) as i16, w);
    }
}

/// The other half of diff minimality: when the draw grid equals the
/// committed grid cell for cell, a commit emits no character write at all.
pub proof fn lemma_no_change_no_writes(
    f: Seq<Seq<Pixel>>,
    w: int,
    h: int,
    cursor: (i16, i16),
    color: u16,
)
    ensures
        write_count(draw_commands(f, f, w, h, cursor, color)) == 0,
{
    lemma_grid_equal_no_diff(f, w, h);
    lemma_diff_minimality(f, f, w, h, cursor, color);
}

/// No two adjacent commands of a stream are color sets of the same pair.
pub open spec fn no_adjacent_same_color(cmds: Seq<Command>) -> bool {
    forall|i: int|
        0 <= i < cmds.len() - 1 ==> !(#[trigger] cmds[i] is SetColor && cmds[i + 1] is SetColor
            && cmds[i] == cmds[i + 1])
}

/// The last command, if it is a color set, agrees with the cached attribute.
spec fn color_synced(st: EmitState) -> bool {
    st.cmds.len() > 0 ==> match st.cmds.last() {
        Command::SetColor(fg, bg) => color_attribute(fg, bg) == st.color,
        _ => true,
    }
}

proof fn lemma_no_adj_push(s: Seq<Command>, c: Command)
    requires
        no_adjacent_same_color(s),
        !(s.len() > 0 && s.last() is SetColor && c is SetColor && s.last() == c),
    ensures
        no_adjacent_same_color(s.push(c)),
{
    let t = s.push(c);
    assert forall|i: int|
        0 <= i < t.len() - 1 implies !(#[trigger] t[i] is SetColor && t[i + 1] is SetColor && t[i]
        == t[i + 1]) by {
        if i < s.len() - 1 {
            assert(t[i] == s[i] && t[i + 1] == s[i + 1]);
        } else {
            assert(t[i] == s.last() && t[i + 1] == c);
        }
    }
}

proof fn lemma_cell_step_colors(st: EmitState, f: Pixel, b: Pixel, x: i16, y: i16)
    requires
        no_adjacent_same_color(st.cmds),
        color_synced(st),
    ensures
        no_adjacent_same_color(cell_step(st, f, b, x, y).cmds),
        color_synced(cell_step(st, f, b, x, y)),
{
    if f != b {
        let moved = !(st.cursor_x == x && st.cursor_y == y);
        let st1 = if !moved {
            st
        } else {
            EmitState {
                cursor_x: x,
                cursor_y: y,
                color: st.color,
                cmds: st.cmds.push(Command::MoveCursor(x, y)),
            }
        };
        if moved {
            lemma_no_adj_push(st.cmds, Command::MoveCursor(x, y));
        }
        let c = color_attribute(f.fg, f.bg);
        let st2 = if st1.color == c {
            st1
        } else {
            EmitState {
                cursor_x: st1.cursor_x,
                cursor_y: st1.cursor_y,
                color: c,
                cmds: st1.cmds.push(Command::SetColor(f.fg, f.bg)),
            }
        };
        if st1.color != c {
            assert(!(st1.cmds.len() > 0 && st1.cmds.last() is SetColor && st1.cmds.last()
                == Command::SetColor(f.fg, f.bg))) by {
                if moved {
                    assert(st1.cmds.last() == Command::MoveCursor(x, y));
                } else {
                    if st1.cmds.len() > 0 && st1.cmds.last() == Command::SetColor(f.fg, f.bg) {
                        assert(color_attribute(f.fg, f.bg) == st.color);
                    }
                }
            }
            lemma_no_adj_push(st1.cmds, Command::SetColor(f.fg, f.bg));
        }
        lemma_no_adj_push(st2.cmds, Command::Write(f.character));
    }
}

proof fn lemma_row_colors(st: EmitState, fr: Seq<Pixel>, br: Seq<Pixel>, y: i16, n: int)
    requires
        no_adjacent_same_color(st.cmds),
        color_synced(st),
    ensures
        no_adjacent_same_color(row_steps(st, fr, br, y, n).cmds),
        color_synced(row_steps(st, fr, br, y, n)),
    decreases n,
{
    if n > 0 {
        lemma_row_colors(st, fr, br, y, n - 1);
        lemma_cell_step_colors(row_steps(st, fr, br, y, n - 1), fr[n - 1], br[n - 1], (n - 1) as i16, y);
    }
}

proof fn lemma_grid_colors(st: EmitState, f: Seq<Seq<Pixel>>, b: Seq<Seq<Pixel>>, w: int, m: int)
    requires
        no_adjacent_same_color(st.cmds),
        color_synced(st),
    ensures
        no_adjacent_same_color(grid_steps(st, f, b, w, m).cmds),
        color_synced(grid_steps(st, f, b, w, m)),
    decreases m,
{
    if m > 0 {
        lemma_grid_colors(st, f, b, w, m - 1);
        lemma_row_colors(grid_steps(st, f, b, w, m - 1), f[m - 1], b[m - 1], (m - 1) as i16, w);
    }
}

/// Color-cache invariant: across one whole commit, no two consecutive
/// emitted commands are color sets specifying the same pair — the combined
/// color is cached across the commit, not per row or per cell.
pub proof fn lemma_color_cache(
    f: Seq<Seq<Pixel>>,
    b: Seq<Seq<Pixel>>,
    w: int,
    h: int,
    cursor: (i16, i16),
    color: u16,
)
    ensures
        no_adjacent_same_color(draw_commands(f, b, w, h, cursor, color)),
{
    let st0 = EmitState { cursor_x: cursor.0, cursor_y: cursor.1, color, cmds: Seq::empty() };
    lemma_grid_colors(st0, f, b, w, h);
    let st = grid_steps(st0, f, b, w, h);
    let moved = !(st.cursor_x == 0 && st.cursor_y == 0);
    let st1 = if !moved {
        st
    } else {
        EmitState {
            cursor_x: 0,
            cursor_y: 0,
            color: st.color,
            cmds: st.cmds.push(Command::MoveCursor(0, 0)),
        }
    };
    if moved {
        lemma_no_adj_push(st.cmds, Command::MoveCursor(0, 0));
    }
    let home = color_attribute(Color::White, Color::Black);
    if st1.color != home {
        assert(!(st1.cmds.len() > 0 && st1.cmds.last() is SetColor && st1.cmds.last()
            == Command::SetColor(Color::White, Color::Black))) by {
            if moved {
                assert(st1.cmds.last() == Command::MoveCursor(0, 0));
            } else {
                if st1.cmds.len() > 0 && st1.cmds.last() == Command::SetColor(
                    Color::White,
                    Color::Black,
                ) {
                    assert(color_attribute(Color::White, Color::Black) == st.color);
                }
            }
        }
        lemma_no_adj_push(st1.cmds, Command::SetColor(Color::White, Color::Black));
    }
    assert(draw_commands(f, b, w, h, cursor, color) == finish_steps(st).cmds);
}

/// The color-set commands of a stream, in emission order.
pub open spec fn colors_of(cmds: Seq<Command>) -> Seq<Command>
    decreases cmds.len(),
{
    if cmds.len() == 0 {
        Seq::empty()
    } else {
        colors_of(cmds.drop_last()) + (if cmds.last() is SetColor {
            seq![cmds.last()]
        } else {
            Seq::<Command>::empty()
        })
    }
}

/// No element of a stream equals its immediate predecessor.
pub open spec fn distinct_adjacent(cs: Seq<Command>) -> bool {
    forall|i: int| 0 < i < cs.len() ==> #[trigger] cs[i] != cs[i - 1]
}

proof fn lemma_colors_of_push(s: Seq<Command>, c: Command)
    ensures
        colors_of(s.push(c)) == colors_of(s) + (if c is SetColor {
            seq![c]
        } else {
            Seq::<Command>::empty()
        }),
{
    assert(s.push(c).drop_last() =~= s);
    assert(colors_of(s.push(c).drop_last()) == colors_of(s));
}

proof fn lemma_distinct_push(cs: Seq<Command>, c: Command)
    requires
        distinct_adjacent(cs),
        cs.len() > 0 ==> cs.last() != c,
    ensures
        distinct_adjacent(cs.push(c)),
{
}

/// The cached attribute always equals the pair of the most recent color set,
/// and so far no color set repeated its predecessor.
spec fn cache_ok(st: EmitState) -> bool {
    &&& distinct_adjacent(colors_of(st.cmds))
    &&& (colors_of(st.cmds).len() > 0 ==> match colors_of(st.cmds).last() {
        Command::SetColor(fg, bg) => color_attribute(fg, bg) == st.color,
        _ => false,
    })
}

proof fn lemma_push_other_keeps_cache(st: EmitState, c: Command)
    requires
        cache_ok(st),
        !(c is SetColor),
    ensures
        cache_ok(EmitState { cmds: st.cmds.push(c), ..st }),
        colors_of(st.cmds.push(c)) == colors_of(st.cmds),
{
    lemma_colors_of_push(st.cmds, c);
    assert(colors_of(st.cmds) + Seq::<Command>::empty() =~= colors_of(st.cmds));
}

proof fn lemma_push_color_keeps_cache(st: EmitState, fg: Color, bg: Color)
    requires
        cache_ok(st),
        st.color != color_attribute(fg, bg),
    ensures
        cache_ok(
            EmitState {
                color: color_attribute(fg, bg),
                cmds: st.cmds.push(Command::SetColor(fg, bg)),
                ..st
            },
        ),
{
    lemma_colors_of_push(st.cmds, Command::SetColor(fg, bg));
    let cs = colors_of(st.cmds);
    if cs.len() > 0 {
        assert(cs.last() != Command::SetColor(fg, bg));
    }
    lemma_distinct_push(cs, Command::SetColor(fg, bg));
    assert(cs.push(Command::SetColor(fg, bg)) =~= cs + seq![Command::SetColor(fg, bg)]);
}

proof fn lemma_cell_step_cache(st: EmitState, f: Pixel, b: Pixel, x: i16, y: i16)
    requires
        cache_ok(st),
    ensures
        cache_ok(cell_step(st, f, b, x, y)),
{
    if f != b {
        let moved = !(st.cursor_x == x && st.cursor_y == y);
        let st1 = if !moved {
            st
        } else {
            EmitState {
                cursor_x: x,
                cursor_y: y,
                color: st.color,
                cmds: st.cmds.push(Command::MoveCursor(x, y)),
            }
        };
        if moved {
            lemma_push_other_keeps_cache(st, Command::MoveCursor(x, y));
        }
        let c = color_attribute(f.fg, f.bg);
        let st2 = if st1.color == c {
            st1
        } else {
            EmitState {
                cursor_x: st1.cursor_x,
                cursor_y: st1.cursor_y,
                color: c,
                cmds: st1.cmds.push(Command::SetColor(f.fg, f.bg)),
            }
        };
        if st1.color != c {
            lemma_push_color_keeps_cache(st1, f.fg, f.bg);
        }
        lemma_push_other_keeps_cache(st2, Command::Write(f.character));
    }
}

proof fn lemma_row_cache(st: EmitState, fr: Seq<Pixel>, br: Seq<Pixel>, y: i16, n: int)
    requires
        cache_ok(st),
    ensures
        cache_ok(row_steps(st, fr, br, y, n)),
    decreases n,
{
    if n > 0 {
        lemma_row_cache(st, fr, br, y, n - 1);
        lemma_cell_step_cache(row_steps(st, fr, br, y, n - 1), fr[n - 1], br[n - 1], (n - 1) as i16, y);
    }
}

proof fn lemma_grid_cache(st: EmitState, f: Seq<Seq<Pixel>>, b: Seq<Seq<Pixel>>, w: int, m: int)
    requires
        cache_ok(st),
    ensures
        cache_ok(grid_steps(st, f, b, w, m)),
    decreases m,
{
    if m > 0 {
        lemma_grid_cache(st, f, b, w, m - 1);
        lemma_row_cache(grid_steps(st, f, b, w, m - 1), f[m - 1], b[m - 1], (m - 1) as i16, w);
    }
}

/// The color cache holds across the whole commit, not per row or per cell:
/// among the color-set commands of one commit, taken in emission order and
/// however many other commands stand between them, no pair is ever sent
/// twice in a row.
pub proof fn lemma_color_cache_subsequence(
    f: Seq<Seq<Pixel>>,
    b: Seq<Seq<Pixel>>,
    w: int,
    h: int,
    cursor: (i16, i16),
    color: u16,
)
    ensures
        distinct_adjacent(colors_of(draw_commands(f, b, w, h, cursor, color))),
{
    let st0 = EmitState { cursor_x: cursor.0, cursor_y: cursor.1, color, cmds: Seq::empty() };
    lemma_grid_cache(st0, f, b, w, h);
    let st = grid_steps(st0, f, b, w, h);
    let moved = !(st.cursor_x == 0 && st.cursor_y == 0);
    let st1 = if !moved {
        st
    } else {
        EmitState {
            cursor_x: 0,
            cursor_y: 0,
            color: st.color,
            cmds: st.cmds.push(Command::MoveCursor(0, 0)),
        }
    };
    if moved {
        lemma_push_other_keeps_cache(st, Command::MoveCursor(0, 0));
    }
    if st1.color != color_attribute(Color::White, Color::Black) {
        lemma_push_color_keeps_cache(st1, Color::White, Color::Black);
    }
}

/// Where the device cursor rests after the cells at `ps` were written, in
/// order, starting from `c0`: one column right of the last written cell.
pub open spec fn cursor_after(ps: Seq<(i16, i16)>, c0: (i16, i16)) -> (i16, i16) {
    if ps.len() == 0 {
        c0
    } else {
        (((ps.last().0 + 1) as i16), ps.last().1)
    }
}

/// Whether the cursor move before the write of the cell `ps[k]` is elided:
/// for every cell but the first, exactly when the immediately preceding
/// written cell was its left neighbour `(x - 1, y)`; for the first written
/// cell, exactly when the cursor already sat on it.
pub open spec fn move_elided(ps: Seq<(i16, i16)>, c0: (i16, i16), k: int) -> bool {
    if k == 0 {
        c0 == ps[0]
    } else {
        ps[k - 1].1 == ps[k].1 && ps[k - 1].0 + 1 == ps[k].0
    }
}

/// How many of the first `n` written cells need a cursor move.
pub open spec fn needed_moves(ps: Seq<(i16, i16)>, c0: (i16, i16), n: int) -> int
    decreases n,
{
    if n <= 0 {
        0
    } else {
        needed_moves(ps, c0, n - 1) + (if move_elided(ps, c0, n - 1) {
            0int
        } else {
            1int
        })
    }
}

proof fn lemma_needed_moves_prefix(ps1: Seq<(i16, i16)>, ps2: Seq<(i16, i16)>, c0: (i16, i16), j: int)
    requires
        j <= ps1.len(),
        j <= ps2.len(),
        forall|k: int| 0 <= k < j ==> ps1[k] == ps2[k],
    ensures
        needed_moves(ps1, c0, j) == needed_moves(ps2, c0, j),
    decreases j,
{
    if j > 0 {
        lemma_needed_moves_prefix(ps1, ps2, c0, j - 1);
    }
}

/// All x coordinates small enough that moving one column right cannot wrap.
pub open spec fn positions_bounded(ps: Seq<(i16, i16)>) -> bool {
    forall|k: int| 0 <= k < ps.len() ==> 0 <= (#[trigger] ps[k]).0 < 0x7fff
}

proof fn lemma_cell_step_moves(
    st: EmitState,
    f: Pixel,
    b: Pixel,
    x: i16,
    y: i16,
    ps0: Seq<(i16, i16)>,
    c0: (i16, i16),
)
    requires
        (st.cursor_x, st.cursor_y) == cursor_after(ps0, c0),
        move_count(st.cmds) == needed_moves(ps0, c0, ps0.len() as int),
        positions_bounded(ps0),
        0 <= x < 0x7fff,
    ensures
        ({
            let ps = if f == b {
                ps0
            } else {
                ps0.push((x, y))
            };
            let st1 = cell_step(st, f, b, x, y);
            &&& (st1.cursor_x, st1.cursor_y) == cursor_after(ps, c0)
            &&& move_count(st1.cmds) == needed_moves(ps, c0, ps.len() as int)
            &&& positions_bounded(ps)
        }),
{
    if f != b {
        let ps = ps0.push((x, y));
        lemma_needed_moves_prefix(ps0, ps, c0, ps0.len() as int);
        let st1 = if st.cursor_x == x && st.cursor_y == y {
            st
        } else {
            EmitState {
                cursor_x: x,
                cursor_y: y,
                color: st.color,
                cmds: st.cmds.push(Command::MoveCursor(x, y)),
            }
        };
        let c = color_attribute(f.fg, f.bg);
        let st2 = if st1.color == c {
            st1
        } else {
            EmitState {
                cursor_x: st1.cursor_x,
                cursor_y: st1.cursor_y,
                color: c,
                cmds: st1.cmds.push(Command::SetColor(f.fg, f.bg)),
            }
        };
        lemma_move_count_push(st.cmds, Command::MoveCursor(x, y));
        lemma_move_count_push(st1.cmds, Command::SetColor(f.fg, f.bg));
        lemma_move_count_push(st2.cmds, Command::Write(f.character));
        assert(move_elided(ps, c0, ps0.len() as int) <==> (st.cursor_x == x && st.cursor_y == y));
    }
}

proof fn lemma_row_moves(
    st: EmitState,
    fr: Seq<Pixel>,
    br: Seq<Pixel>,
    y: i16,
    n: int,
    ps0: Seq<(i16, i16)>,
    c0: (i16, i16),
)
    requires
        (st.cursor_x, st.cursor_y) == cursor_after(ps0, c0),
        move_count(st.cmds) == needed_moves(ps0, c0, ps0.len() as int),
        positions_bounded(ps0),
        n < 0x7fff,
    ensures
        ({
            let ps = ps0 + row_diff_positions(fr, br, y, n);
            let st1 = row_steps(st, fr, br, y, n);
            &&& (st1.cursor_x, st1.cursor_y) == cursor_after(ps, c0)
            &&& move_count(st1.cmds) == needed_moves(ps, c0, ps.len() as int)
            &&& positions_bounded(ps)
        }),
    decreases n,
{
    if n <= 0 {
        assert(ps0 + row_diff_positions(fr, br, y, n) =~= ps0);
    } else {
        lemma_row_moves(st, fr, br, y, n - 1, ps0, c0);
        let psn = ps0 + row_diff_positions(fr, br, y, n - 1);
        lemma_cell_step_moves(
            row_steps(st, fr, br, y, n - 1),
            fr[n - 1],
            br[n - 1],
            (n - 1) as i16,
            y,
            psn,
            c0,
        );
        if fr[n - 1] == br[n - 1] {
            assert(ps0 + row_diff_positions(fr, br, y, n) =~= psn);
        } else {
            assert(ps0 + row_diff_positions(fr, br, y, n) =~= psn.push((((n - 1) as i16), y)));
        }
    }
}

proof fn lemma_grid_moves(
    st: EmitState,
    f: Seq<Seq<Pixel>>,
    b: Seq<Seq<Pixel>>,
    w: int,
    m: int,
    c0: (i16, i16),
)
    requires
        (st.cursor_x, st.cursor_y) == c0,
        move_count(st.cmds) == 0,
        w < 0x7fff,
    ensures
        ({
            let ps = grid_diff_positions(f, b, w, m);
            let st1 = grid_steps(st, f, b, w, m);
            &&& (st1.cursor_x, st1.cursor_y) == cursor_after(ps, c0)
            &&& move_count(st1.cmds) == needed_moves(ps, c0, ps.len() as int)
            &&& positions_bounded(ps)
        }),
    decreases m,
{
    if m <= 0 {
        assert(grid_diff_positions(f, b, w, m) =~= Seq::<(i16, i16)>::empty());
    } else {
        lemma_grid_moves(st, f, b, w, m - 1, c0);
        lemma_row_moves(
            grid_steps(st, f, b, w, m - 1),
            f[m - 1],
            b[m - 1],
            (m - 1) as i16,
            w,
            grid_diff_positions(f, b, w, m - 1),
            c0,
        );
    }
}

/// Cursor-skip invariant: over the traversal of one commit, a cursor move is
/// emitted for exactly those changed cells whose write the cursor was not
/// already positioned for — that is, the move before writing `(x, y)` is
/// elided iff the immediately preceding written cell was `(x - 1, y)`, and,
/// for the very first written cell, iff the cursor already sat on it.  The
/// final reposition to the origin comes after the traversal and is not
/// counted here.
pub proof fn lemma_cursor_skip(
    f: Seq<Seq<Pixel>>,
    b: Seq<Seq<Pixel>>,
    w: int,
    h: int,
    cursor: (i16, i16),
    color: u16,
)
    requires
        0 <= w < 0x7fff,
    ensures
        ({
            let ps = grid_diff_positions(f, b, w, h);
            let st0 = EmitState {
                cursor_x: cursor.0,
                cursor_y: cursor.1,
                color,
                cmds: Seq::empty(),
            };
            move_count(grid_steps(st0, f, b, w, h).cmds) == needed_moves(ps, cursor, ps.len() as int)
        }),
{
    let st0 = EmitState { cursor_x: cursor.0, cursor_y: cursor.1, color, cmds: Seq::empty() };
    lemma_grid_moves(st0, f, b, w, h, cursor);
}

/// Resize forces a full redraw: against a committed grid filled with the
/// invalid cell, a commit of the all-filler draw grid writes every one of
/// the `w * h` cells.
pub proof fn lemma_resize_forces_full_redraw(w: int, h: int, cursor: (i16, i16), color: u16)
    requires
        0 <= w,
        0 <= h,
    ensures
        grid_diff_positions(grid_of(w, h, filler_pixel()), grid_of(w, h, invalid_pixel()), w, h).len()
            == w * h,
        write_count(
            draw_commands(
                grid_of(w, h, filler_pixel()),
                grid_of(w, h, invalid_pixel()),
                w,
                h,
                cursor,
                color,
            ),
        ) == w * h,
{
    let f = grid_of(w, h, filler_pixel());
    let b = grid_of(w, h, invalid_pixel());
    lemma_all_rows_differ(f, b, w, h);
    lemma_diff_minimality(f, b, w, h, cursor, color);
}

proof fn lemma_row_all_differ(fr: Seq<Pixel>, br: Seq<Pixel>, y: i16, n: int)
    requires
        forall|x: int| 0 <= x < n ==> #[trigger] fr[x] == filler_pixel(),
        forall|x: int| 0 <= x < n ==> #[trigger] br[x] == invalid_pixel(),
    ensures
        row_diff_positions(fr, br, y, n).len() == if n <= 0 {
            0
        } else {
            n
        },
    decreases n,
{
    if n > 0 {
        lemma_row_all_differ(fr, br, y, n - 1);
    }
}

proof fn lemma_all_rows_differ(f: Seq<Seq<Pixel>>, b: Seq<Seq<Pixel>>, w: int, m: int)
    requires
        0 <= w,
        f == grid_of(w, f.len() as int, filler_pixel()),
        b == grid_of(w, b.len() as int, invalid_pixel()),
        m <= f.len(),
        m <= b.len(),
    ensures
        grid_diff_positions(f, b, w, m).len() == if m <= 0 {
            0
        } else {
            m * w
        },
    decreases m,
{
    if m > 0 {
        lemma_all_rows_differ(f, b, w, m - 1);
        lemma_row_all_differ(f[m - 1], b[m - 1], (m - 1) as i16, w);
        assert((m - 1) * w + w == m * w) by (nonlinear_arith);
    }
}

/// The characters of `text`, in order.  Relies only on the standard
/// character iterator; each character later occupies one grid cell.
fn str_chars(text: &str) -> (r: Vec<char>)
    ensures
        r@ == text@,
{
    let mut r: Vec<char> = Vec::new();
    for c in it: text.chars()
        invariant
            r@ == it.seq().take(it.index() as int),
    {
        proof {
            assert(it.seq().take(it.index() as int + 1) =~= it.seq().take(it.index() as int).push(
                it.seq()[it.index() as int],
            ));
        }
        r.push(c);
    }
    proof {
        assert(r@ =~= text@);
    }
    r
}

} // verus!
