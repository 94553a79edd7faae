use vstd::prelude::*;

verus! {

/// A frame as a sequence of 64 columns of 32 pixels each: the pixel in
/// column `x` and row `y` is `frame[x][y]`.
pub type Frame = Seq<Seq<bool>>;

/// Whether `frame` has 64 columns of 32 pixels.
pub open spec fn frame_wf(frame: Frame) -> bool {
    &&& frame.len() == 64
    &&& forall|x: int| 0 <= x < 64 ==> (#[trigger] frame[x]).len() == 32
}

/// The frame with every pixel off.
pub open spec fn blank_frame() -> Frame {
    Seq::new(64, |x: int| Seq::new(32, |y: int| false))
}

/// The pixels of a grid as a frame.
pub open spec fn grid_frame(grid: [[bool; 32]; 64]) -> Frame {
    Seq::new(64, |x: int| grid@[x]@)
}

/// Whether bit `bit` of a sprite row is set, counting from the leftmost,
/// most significant one.
pub open spec fn sprite_bit(row: u8, bit: u8) -> bool {
    row & (0x80u8 >> bit) != 0
}

/// Whether the sprite `rows`, drawn with its top left corner at
/// (`x0`, `y0`), has a set bit at pixel (`x`, `y`).
pub open spec fn sprite_covers(x0: int, y0: int, rows: Seq<u8>, x: int, y: int) -> bool {
    &&& x0 <= x < x0 + 8
    &&& y0 <= y < y0 + rows.len()
    &&& sprite_bit(rows[y - y0], (x - x0) as u8)
}

/// The frame after the sprite `rows` is drawn at (`x0`, `y0`): every pixel
/// under a set sprite bit is toggled. Sprite bits that fall off the right
/// or the bottom edge have no pixel and are dropped.
pub open spec fn draw_spec(frame: Frame, x0: int, y0: int, rows: Seq<u8>) -> Frame {
    Seq::new(
        64,
        |x: int| Seq::new(32, |y: int| frame[x][y] ^ sprite_covers(x0, y0, rows, x, y)),
    )
}

/// Whether drawing the sprite `rows` at (`x0`, `y0`) turns a lit pixel of
/// `frame` off.
pub open spec fn collision_spec(frame: Frame, x0: int, y0: int, rows: Seq<u8>) -> bool {
    exists|x: int, y: int|
        0 <= x < 64 && 0 <= y < 32 && #[trigger] frame[x][y] && sprite_covers(x0, y0, rows, x, y)
}

/// Whether the sprite `rows`, drawn at (`x0`, `y0`), has a set bit on some
/// pixel of the grid.
pub open spec fn sprite_visible(x0: int, y0: int, rows: Seq<u8>) -> bool {
    exists|x: int, y: int|
        0 <= x < 64 && 0 <= y < 32 && #[trigger] sprite_covers(x0, y0, rows, x, y)
}

/// Drawing a sprite twice at one place gives back the frame that was
/// there before.
pub proof fn lemma_draw_twice_restores(frame: Frame, x0: int, y0: int, rows: Seq<u8>)
    requires
        frame_wf(frame),
    ensures
        draw_spec(draw_spec(frame, x0, y0, rows), x0, y0, rows) == frame,
{
    assert(draw_spec(draw_spec(frame, x0, y0, rows), x0, y0, rows) =~~= frame);
}

/// On a blank frame the first drawing of a sprite collides with nothing;
/// drawing it once more at the same place collides, provided that the
/// sprite has a set bit on the grid, and leaves the frame blank again.
pub proof fn lemma_redraw_collides(x0: int, y0: int, rows: Seq<u8>)
    requires
        sprite_visible(x0, y0, rows),
    ensures
        !collision_spec(blank_frame(), x0, y0, rows),
        collision_spec(draw_spec(blank_frame(), x0, y0, rows), x0, y0, rows),
        draw_spec(draw_spec(blank_frame(), x0, y0, rows), x0, y0, rows) == blank_frame(),
{
    lemma_draw_twice_restores(blank_frame(), x0, y0, rows);
    let once = draw_spec(blank_frame(), x0, y0, rows);
    let (x, y) = choose|x: int, y: int|
        0 <= x < 64 && 0 <= y < 32 && #[trigger] sprite_covers(x0, y0, rows, x, y);
    assert(once[x][y]);
}

/// Drawing a sprite row by row is drawing it at once: the frame after the
/// rows `rows` and then the row `row` below them is the frame after the
/// sprite of all of them, and a lit pixel goes off in the whole if it goes
/// off in one of the two parts.
pub proof fn lemma_draw_row_by_row(frame: Frame, x0: int, y0: int, rows: Seq<u8>, row: u8)
    requires
        frame_wf(frame),
    ensures
        draw_spec(draw_spec(frame, x0, y0, rows), x0, y0 + rows.len(), seq![row]) == draw_spec(
            frame,
            x0,
            y0,
            rows.push(row),
        ),
        collision_spec(frame, x0, y0, rows.push(row)) <==> collision_spec(frame, x0, y0, rows)
            || collision_spec(draw_spec(frame, x0, y0, rows), x0, y0 + rows.len(), seq![row]),
{
    let part = draw_spec(frame, x0, y0, rows);
    let below = y0 + rows.len();
    let last = seq![row];
    let all = rows.push(row);
    assert forall|x: int, y: int| 0 <= x < 64 && 0 <= y < 32 implies (sprite_covers(
        x0,
        y0,
        all,
        x,
        y,
    ) <==> sprite_covers(x0, y0, rows, x, y) || sprite_covers(x0, below, last, x, y)) && !(
    sprite_covers(x0, y0, rows, x, y) && sprite_covers(x0, below, last, x, y)) by {
        if y0 <= y < below {
            assert(all[y - y0] == rows[y - y0]);
        }
        if y == below {
            assert(all[y - y0] == row);
            assert(last[y - below] == row);
        }
    }
    assert(draw_spec(part, x0, below, last) =~~= draw_spec(frame, x0, y0, all));
    if collision_spec(frame, x0, y0, all) {
        let (x, y) = choose|x: int, y: int|
            0 <= x < 64 && 0 <= y < 32 && #[trigger] frame[x][y] && sprite_covers(
                x0,
                y0,
                all,
                x,
                y,
            );
        if sprite_covers(x0, y0, rows, x, y) {
            assert(collision_spec(frame, x0, y0, rows));
        } else {
            assert(part[x][y] && sprite_covers(x0, below, last, x, y));
        }
    }
    if collision_spec(frame, x0, y0, rows) {
        let (x, y) = choose|x: int, y: int|
            0 <= x < 64 && 0 <= y < 32 && #[trigger] frame[x][y] && sprite_covers(
                x0,
                y0,
                rows,
                x,
                y,
            );
        assert(frame[x][y] && sprite_covers(x0, y0, all, x, y));
    }
    if collision_spec(part, x0, below, last) {
        let (x, y) = choose|x: int, y: int|
            0 <= x < 64 && 0 <= y < 32 && #[trigger] part[x][y] && sprite_covers(
                x0,
                below,
                last,
                x,
                y,
            );
        assert(frame[x][y] && sprite_covers(x0, y0, all, x, y));
    }
}

/// A sprite without rows draws nothing.
pub proof fn lemma_draw_nothing(frame: Frame, x0: int, y0: int)
    requires
        frame_wf(frame),
    ensures
        draw_spec(frame, x0, y0, Seq::<u8>::empty()) == frame,
        !collision_spec(frame, x0, y0, Seq::<u8>::empty()),
{
    assert(draw_spec(frame, x0, y0, Seq::<u8>::empty()) =~~= frame);
}

/// The 64 by 32 monochrome frame buffer, with the frame that was
/// presented last.
pub struct Display {
    pub buffer: [[bool; 32]; 64],
    pub old_buffer: [[bool; 32]; 64],
}

impl Display {
    pub const WIDTH: u8 = 64;

    pub const HEIGHT: u8 = 32;

    /// The frame that is being drawn.
    pub open spec fn frame(&self) -> Frame {
        grid_frame(self.buffer)
    }

    /// The frame that was presented last.
    pub open spec fn old_frame(&self) -> Frame {
        grid_frame(self.old_buffer)
    }

    /// A display with every pixel off.
    pub fn new() -> (display: Self)
        ensures
            display.frame() == blank_frame(),
            display.old_frame() == blank_frame(),
    {
        let display = Display { buffer: [[false; 32]; 64], old_buffer: [[false; 32]; 64] };
        assert(display.frame() =~~= blank_frame());
        assert(display.old_frame() =~~= blank_frame());
        display
    }

    /// Keeps the current frame as the one presented last.
    pub fn retire(&mut self)
        ensures
            final(self).buffer == old(self).buffer,
            final(self).old_buffer == old(self).buffer,
    {
        self.old_buffer = self.buffer;
    }

    /// Turns every pixel off and presents the blank frame.
    pub fn clear(&mut self)
        ensures
            final(self).frame() == blank_frame(),
            final(self).old_frame() == blank_frame(),
    {
        self.retire();
        self.buffer = [[false; 32]; 64];
        assert(self.frame() =~~= blank_frame());
        self.update();
    }

    /// Presents the current frame: from now on it is the frame presented
    /// last.
    pub fn update(&mut self)
        ensures
            final(self).buffer == old(self).buffer,
            final(self).old_buffer == old(self).buffer,
    {
        self.retire();
    }

    /// Toggles the pixel in column `x` and row `y`, and says whether it was
    /// lit before.
    fn toggle(&mut self, x: usize, y: usize) -> (lit: bool)
        requires
            x < 64,
            y < 32,
        ensures
            lit == old(self).frame()[x as int][y as int],
            final(self).frame() == old(self).frame().update(
                x as int,
                old(self).frame()[x as int].update(y as int, !lit),
            ),
            final(self).old_buffer == old(self).old_buffer,
    {
        let lit = self.buffer[x][y];
        self.buffer[x][y] = !lit;
        assert(self.frame() =~~= old(self).frame().update(
            x as int,
            old(self).frame()[x as int].update(y as int, !lit),
        ));
        lit
    }

    /// Draws one sprite row, its leftmost bit at (`x`, `y`), and says
    /// whether a lit pixel went off. Bits to the right of the grid are
    /// dropped, and a row below the grid draws nothing.
    pub fn draw_row(&mut self, x: u8, y: u8, row: u8) -> (collision: bool)
        ensures
            final(self).frame() == draw_spec(old(self).frame(), x as int, y as int, seq![row]),
            collision == collision_spec(old(self).frame(), x as int, y as int, seq![row]),
            final(self).old_buffer == old(self).old_buffer,
    {
        let mut collision = false;
        let ghost before = self.frame();
        let ghost rows = seq![row];
        if y >= Self::HEIGHT {
            assert(self.frame() =~~= draw_spec(before, x as int, y as int, rows));
            assert(!collision_spec(before, x as int, y as int, rows));
            return false;
        }
        let mut j: u8 = 0;
        while j < 8
            invariant
                j <= 8,
                y < 32,
                rows == seq![row],
                before == old(self).frame(),
                frame_wf(before),
                self.old_buffer == old(self).old_buffer,
                forall|cx: int, cy: int|
                    0 <= cx < 64 && 0 <= cy < 32 ==> #[trigger] self.frame()[cx][cy] == (
                    before[cx][cy] ^ (cx < x + j && sprite_covers(
                        x as int,
                        y as int,
                        rows,
                        cx,
                        cy,
                    ))),
                collision <==> exists|cx: int|
                    x <= cx < x + j && cx < 64 && #[trigger] before[cx][y as int] && sprite_bit(
                        row,
                        (cx - x) as u8,
                    ),
            decreases 8 - j,
        {
            let ghost prev = self.frame();
            let ghost hit = collision;
            if (row & (0x80u8 >> j)) != 0 && x as usize + (j as usize) < Self::WIDTH as usize {
                let lit = self.toggle(x as usize + j as usize, y as usize);
                if lit {
                    collision = true;
                }
                assert(lit == before[x + j][y as int]);
            }
            proof {
                let cur = self.frame();
                assert forall|cx: int, cy: int| 0 <= cx < 64 && 0 <= cy < 32 implies #[trigger] cur[cx][cy]
                    == (before[cx][cy] ^ (cx < x + j + 1 && sprite_covers(
                    x as int,
                    y as int,
                    rows,
                    cx,
                    cy,
                ))) by {
                    assert(prev[cx][cy] == (before[cx][cy] ^ (cx < x + j && sprite_covers(
                        x as int,
                        y as int,
                        rows,
                        cx,
                        cy,
                    ))));
                    if cx == x + j && cy == y {
                        assert(rows[cy - y] == row);
                        assert((cx - x) as u8 == j);
                    }
                }
                if collision {
                    if hit {
                        let w = choose|cx: int|
                            x <= cx < x + j && cx < 64 && #[trigger] before[cx][y as int]
                                && sprite_bit(row, (cx - x) as u8);
                        assert(x <= w < x + j + 1 && w < 64 && before[w][y as int] && sprite_bit(
                            row,
                            (w - x) as u8,
                        ));
                    } else {
                        let w = x + j;
                        assert(x <= w < x + j + 1 && w < 64 && before[w][y as int] && sprite_bit(
                            row,
                            (w - x) as u8,
                        ));
                    }
                } else {
                    assert forall|cx: int|
                        x <= cx < x + j + 1 && cx < 64 && #[trigger] before[cx][y as int]
                            implies !sprite_bit(row, (cx - x) as u8) by {
                        if cx == x + j {
                            assert((cx - x) as u8 == j);
                        }
                    }
                }
            }
            j += 1;
        }
        proof {
            assert(self.frame() =~~= draw_spec(before, x as int, y as int, rows));
            if collision {
                let w = choose|cx: int|
                    x <= cx < x + 8 && cx < 64 && #[trigger] before[cx][y as int] && sprite_bit(
                        row,
                        (cx - x) as u8,
                    );
                assert(before[w][y as int] && sprite_covers(x as int, y as int, rows, w, y as int));
            } else {
                assert forall|cx: int, cy: int|
                    0 <= cx < 64 && 0 <= cy < 32 && #[trigger] before[cx][cy]
                        implies !sprite_covers(x as int, y as int, rows, cx, cy) by {
                    if sprite_covers(x as int, y as int, rows, cx, cy) {
                        assert(cy == y);
                        assert(before[cx][y as int]);
                    }
                }
            }
        }
        collision
    }
}

} // verus!
