//! The monochrome framebuffer: 64 columns by 32 rows of pixels that are
//! either set or unset. Sprites are drawn by exclusive-or and wrap around
//! both edges.

use vstd::prelude::*;
use crate::instructions::MemAddr;
use crate::memory::{span_in_reach, Memory, MemoryError, MEMORY_SIZE};

verus! {

/// Pixels in a row.
pub const WIDTH: usize = 64;

/// Rows on the display.
pub const HEIGHT: usize = 32;

/// The state of every pixel: `frame[row][column]` is true where it is set.
pub type Frame = Seq<Seq<bool>>;

/// A frame has [`HEIGHT`] rows of [`WIDTH`] pixels.
pub open spec fn frame_wf(frame: Frame) -> bool {
    &&& frame.len() == HEIGHT
    &&& forall|r: int| 0 <= r < HEIGHT ==> (#[trigger] frame[r]).len() == WIDTH
}

/// The frame with no pixel set.
pub open spec fn blank_frame() -> Frame {
    Seq::new(HEIGHT as nat, |r: int| Seq::new(WIDTH as nat, |c: int| false))
}

/// Bit `offset` of a sprite row, counted from the left: offset 0 is the most
/// significant bit.
pub open spec fn sprite_bit(row: u8, offset: u8) -> bool {
    offset < 8 && (row >> ((7 - offset) as u8)) & 1 == 1
}

/// How far column `c` lies to the right of column `x0`, going round the edge.
pub open spec fn column_offset(x0: int, c: int) -> int {
    (c - x0 + WIDTH) % (WIDTH as int)
}

/// Whether a sprite row placed with its left end at column `x0` has a set
/// bit on column `c`.
pub open spec fn row_covers(row: u8, x0: int, c: int) -> bool {
    column_offset(x0, c) < 8 && sprite_bit(row, column_offset(x0, c) as u8)
}

/// `frame` after one sprite row was drawn on row `r` from column `x0`: each
/// pixel under a set bit is flipped.
pub open spec fn xor_row(frame: Frame, x0: int, r: int, row: u8) -> Frame {
    frame.update(r, Seq::new(WIDTH as nat, |c: int| frame[r][c] != row_covers(row, x0, c)))
}

/// `frame` after the rows of `sprite` were drawn one below the other,
/// starting on row `y0` and wrapping from the last row to the first.
pub open spec fn draw_rows(frame: Frame, x0: int, y0: int, sprite: Seq<u8>) -> Frame
    decreases sprite.len(),
{
    if sprite.len() == 0 {
        frame
    } else {
        xor_row(
            draw_rows(frame, x0, y0, sprite.drop_last()),
            x0,
            (y0 + sprite.len() - 1) % (HEIGHT as int),
            sprite.last(),
        )
    }
}

/// Whether drawing `sprite` flips any pixel: it does as soon as one of its
/// rows has a bit set.
pub open spec fn sprite_lit(sprite: Seq<u8>) -> bool {
    exists|i: int| 0 <= i < sprite.len() && #[trigger] sprite[i] != 0
}

/// The `rows` bytes of `bytes` from `start` on.
pub open spec fn sprite_at(bytes: Seq<u8>, start: int, rows: int) -> Seq<u8> {
    Seq::new(rows as nat, |i: int| bytes[start + i])
}

/// What [`Display::draw`] does to `frame` and what it answers. Rows are
/// read and drawn from the top; a row outside memory ends the draw with an
/// error, and the rows before it stay drawn.
pub open spec fn draw_spec(
    frame: Frame,
    x: u8,
    y: u8,
    height: u8,
    start: int,
    bytes: Seq<u8>,
) -> (Frame, Result<bool, MemoryError>) {
    let rows = span_in_reach(start, height as int);
    (
        draw_rows(
            frame,
            x as int % WIDTH as int,
            y as int % HEIGHT as int,
            sprite_at(bytes, start, rows),
        ),
        if rows == height {
            Ok(sprite_lit(sprite_at(bytes, start, rows)))
        } else {
            Err(MemoryError::OutOfBounds)
        },
    )
}

/// A row is nonzero exactly when one of its eight bits is set.
pub proof fn lemma_row_bits(row: u8)
    ensures
        row != 0 <==> exists|b: u8| #[trigger] sprite_bit(row, b),
{
    assert(row != 0 <==> (row >> 7u8) & 1 == 1 || (row >> 6u8) & 1 == 1 || (row >> 5u8) & 1 == 1
        || (row >> 4u8) & 1 == 1 || (row >> 3u8) & 1 == 1 || (row >> 2u8) & 1 == 1 || (row >> 1u8)
        & 1 == 1 || (row >> 0u8) & 1 == 1) by (bit_vector);
    if row != 0 {
        assert(sprite_bit(row, 0) || sprite_bit(row, 1) || sprite_bit(row, 2) || sprite_bit(row, 3)
            || sprite_bit(row, 4) || sprite_bit(row, 5) || sprite_bit(row, 6) || sprite_bit(
            row,
            7,
        ));
    }
}

/// Column `c` lies `offset` to the right of `x0` exactly when it is the
/// column reached from `x0` in `offset` steps round the edge.
proof fn lemma_offset_column(x0: int, offset: int, c: int)
    requires
        0 <= x0 < WIDTH,
        0 <= offset < WIDTH,
        0 <= c < WIDTH,
    ensures
        column_offset(x0, c) == offset <==> c == (x0 + offset) % (WIDTH as int),
{
    if c >= x0 {
        assert(column_offset(x0, c) == c - x0);
    } else {
        assert(column_offset(x0, c) == c - x0 + WIDTH);
    }
    if x0 + offset < WIDTH {
        assert((x0 + offset) % (WIDTH as int) == x0 + offset);
    } else {
        assert((x0 + offset) % (WIDTH as int) == x0 + offset - WIDTH);
    }
}

proof fn lemma_lit_push(sprite: Seq<u8>, row: u8)
    ensures
        sprite_lit(sprite.push(row)) == (sprite_lit(sprite) || row != 0),
{
    let longer = sprite.push(row);
    if sprite_lit(sprite) {
        let i = choose|i: int| 0 <= i < sprite.len() && #[trigger] sprite[i] != 0;
        assert(longer[i] != 0);
    }
    if row != 0 {
        assert(longer[sprite.len() as int] != 0);
    }
    if sprite_lit(longer) {
        let i = choose|i: int| 0 <= i < longer.len() && #[trigger] longer[i] != 0;
        if i < sprite.len() {
            assert(sprite[i] != 0);
        }
    }
}

/// Drawing keeps the shape of the frame.
pub proof fn lemma_draw_keeps_shape(frame: Frame, x0: int, y0: int, sprite: Seq<u8>)
    requires
        frame_wf(frame),
        0 <= y0,
    ensures
        frame_wf(draw_rows(frame, x0, y0, sprite)),
    decreases sprite.len(),
{
    if sprite.len() > 0 {
        lemma_draw_keeps_shape(frame, x0, y0, sprite.drop_last());
    }
}

/// A row without a set bit leaves the frame as it is.
proof fn lemma_xor_blank_row(frame: Frame, x0: int, r: int)
    requires
        frame_wf(frame),
        0 <= r < HEIGHT,
    ensures
        xor_row(frame, x0, r, 0) == frame,
{
    assert forall|b: u8| !sprite_bit(0, b) by {
        assert(b < 8 ==> (0u8 >> ((7 - b) as u8)) & 1 == 0) by (bit_vector);
    }
    assert(xor_row(frame, x0, r, 0)[r] =~= frame[r]);
    assert(xor_row(frame, x0, r, 0) =~= frame);
}

/// Drawing the same row twice in the same place restores the frame.
proof fn lemma_xor_row_twice(frame: Frame, x0: int, r: int, row: u8)
    requires
        frame_wf(frame),
        0 <= r < HEIGHT,
    ensures
        xor_row(xor_row(frame, x0, r, row), x0, r, row) == frame,
{
    let once = xor_row(frame, x0, r, row);
    assert(xor_row(once, x0, r, row)[r] =~= frame[r]);
    assert(xor_row(once, x0, r, row) =~= frame);
}

/// Two rows may be drawn in either order.
proof fn lemma_xor_rows_commute(frame: Frame, x0: int, r1: int, row1: u8, r2: int, row2: u8)
    requires
        frame_wf(frame),
        0 <= r1 < HEIGHT,
        0 <= r2 < HEIGHT,
    ensures
        xor_row(xor_row(frame, x0, r1, row1), x0, r2, row2) == xor_row(
            xor_row(frame, x0, r2, row2),
            x0,
            r1,
            row1,
        ),
{
    let a = xor_row(xor_row(frame, x0, r1, row1), x0, r2, row2);
    let b = xor_row(xor_row(frame, x0, r2, row2), x0, r1, row1);
    assert forall|r: int| 0 <= r < HEIGHT implies a[r] == b[r] by {
        assert(a[r] =~= b[r]);
    }
    assert(a =~= b);
}

/// A row drawn before a sprite gives the same frame as that row drawn after it.
proof fn lemma_row_commutes_with_sprite(
    frame: Frame,
    x0: int,
    y0: int,
    sprite: Seq<u8>,
    r: int,
    row: u8,
)
    requires
        frame_wf(frame),
        0 <= y0,
        0 <= r < HEIGHT,
    ensures
        draw_rows(xor_row(frame, x0, r, row), x0, y0, sprite) == xor_row(
            draw_rows(frame, x0, y0, sprite),
            x0,
            r,
            row,
        ),
    decreases sprite.len(),
{
    if sprite.len() > 0 {
        let rest = sprite.drop_last();
        let last_r = (y0 + sprite.len() - 1) % (HEIGHT as int);
        lemma_row_commutes_with_sprite(frame, x0, y0, rest, r, row);
        lemma_draw_keeps_shape(frame, x0, y0, rest);
        lemma_xor_rows_commute(draw_rows(frame, x0, y0, rest), x0, r, row, last_r, sprite.last());
    }
}

/// Drawing one sprite row changes the frame exactly when the row has a bit
/// set: each set bit flips the pixel it lands on.
pub proof fn lemma_row_flips(frame: Frame, x0: int, r: int, row: u8)
    requires
        frame_wf(frame),
        0 <= x0 < WIDTH,
        0 <= r < HEIGHT,
    ensures
        xor_row(frame, x0, r, row) != frame <==> row != 0,
{
    if row == 0 {
        lemma_xor_blank_row(frame, x0, r);
    } else {
        lemma_row_bits(row);
        let b = choose|b: u8| #[trigger] sprite_bit(row, b);
        let c = (x0 + b) % (WIDTH as int);
        lemma_offset_column(x0, b as int, c);
        assert(row_covers(row, x0, c));
        assert(xor_row(frame, x0, r, row)[r][c] != frame[r][c]);
    }
}

/// A draw reports a collision exactly when one of its rows, at the moment
/// it is drawn, changes the frame: when some pixel goes from unset to set or
/// from set to unset.
pub proof fn lemma_collision_is_flip(frame: Frame, x0: int, y0: int, sprite: Seq<u8>)
    requires
        frame_wf(frame),
        0 <= x0 < WIDTH,
        0 <= y0,
    ensures
        sprite_lit(sprite) <==> exists|i: int|
            0 <= i < sprite.len() && #[trigger] draw_rows(frame, x0, y0, sprite.take(i + 1))
                != draw_rows(frame, x0, y0, sprite.take(i)),
{
    assert forall|i: int| 0 <= i < sprite.len() implies (#[trigger] draw_rows(
        frame,
        x0,
        y0,
        sprite.take(i + 1),
    ) != draw_rows(frame, x0, y0, sprite.take(i)) <==> sprite[i] != 0) by {
        let before = draw_rows(frame, x0, y0, sprite.take(i));
        assert(sprite.take(i + 1).drop_last() =~= sprite.take(i));
        lemma_draw_keeps_shape(frame, x0, y0, sprite.take(i));
        lemma_row_flips(before, x0, (y0 + i) % (HEIGHT as int), sprite[i]);
    }
    if sprite_lit(sprite) {
        let i = choose|i: int| 0 <= i < sprite.len() && #[trigger] sprite[i] != 0;
        assert(draw_rows(frame, x0, y0, sprite.take(i + 1)) != draw_rows(
            frame,
            x0,
            y0,
            sprite.take(i),
        ));
    }
}

/// A sprite whose rows are all zero flips nothing: the frame stays as it
/// was and no collision is reported.
pub proof fn lemma_blank_sprite(frame: Frame, x0: int, y0: int, sprite: Seq<u8>)
    requires
        frame_wf(frame),
        0 <= y0,
        forall|i: int| 0 <= i < sprite.len() ==> sprite[i] == 0,
    ensures
        draw_rows(frame, x0, y0, sprite) == frame,
        !sprite_lit(sprite),
    decreases sprite.len(),
{
    if sprite.len() > 0 {
        lemma_blank_sprite(frame, x0, y0, sprite.drop_last());
        lemma_xor_blank_row(frame, x0, (y0 + sprite.len() - 1) % (HEIGHT as int));
    }
}

/// Drawing a sprite a second time in the same place undoes the first draw.
pub proof fn lemma_draw_twice(frame: Frame, x0: int, y0: int, sprite: Seq<u8>)
    requires
        frame_wf(frame),
        0 <= y0,
    ensures
        draw_rows(draw_rows(frame, x0, y0, sprite), x0, y0, sprite) == frame,
    decreases sprite.len(),
{
    if sprite.len() > 0 {
        let rest = sprite.drop_last();
        let r = (y0 + sprite.len() - 1) % (HEIGHT as int);
        let row = sprite.last();
        let inner = draw_rows(frame, x0, y0, rest);
        lemma_draw_keeps_shape(frame, x0, y0, rest);
        lemma_row_commutes_with_sprite(inner, x0, y0, rest, r, row);
        lemma_draw_twice(frame, x0, y0, rest);
        lemma_xor_row_twice(frame, x0, r, row);
    }
}

/// Where a draw has set a pixel that was unset, the same draw repeated
/// reports a collision.
pub proof fn lemma_redraw_collides(frame: Frame, x0: int, y0: int, sprite: Seq<u8>, r: int, c: int)
    requires
        frame_wf(frame),
        0 <= y0,
        0 <= r < HEIGHT,
        0 <= c < WIDTH,
        !frame[r][c],
        draw_rows(frame, x0, y0, sprite)[r][c],
    ensures
        sprite_lit(sprite),
{
    if !sprite_lit(sprite) {
        lemma_blank_sprite(frame, x0, y0, sprite);
    }
}

/// A sprite that lies in memory and is all zero leaves the display as it
/// is and reports no collision.
pub proof fn lemma_draw_blank(frame: Frame, x: u8, y: u8, height: u8, start: int, bytes: Seq<u8>)
    requires
        frame_wf(frame),
        0 <= start,
        start + height <= MEMORY_SIZE,
        forall|i: int| start <= i < start + height ==> bytes[i] == 0,
    ensures
        draw_spec(frame, x, y, height, start, bytes) == (frame, Ok::<bool, MemoryError>(false)),
{
    lemma_blank_sprite(
        frame,
        x as int % WIDTH as int,
        y as int % HEIGHT as int,
        sprite_at(bytes, start, height as int),
    );
}

/// Drawing a sprite that lies in memory twice in the same place gives the
/// display back as it was; both draws report a collision if the sprite has
/// a bit set, and neither does if it has none.
pub proof fn lemma_draw_again(frame: Frame, x: u8, y: u8, height: u8, start: int, bytes: Seq<u8>)
    requires
        frame_wf(frame),
        0 <= start,
        start + height <= MEMORY_SIZE,
    ensures
        draw_spec(
            draw_spec(frame, x, y, height, start, bytes).0,
            x,
            y,
            height,
            start,
            bytes,
        ) == (frame, draw_spec(frame, x, y, height, start, bytes).1),
        draw_spec(frame, x, y, height, start, bytes).1 == Ok::<bool, MemoryError>(
            sprite_lit(sprite_at(bytes, start, height as int)),
        ),
{
    lemma_draw_twice(
        frame,
        x as int % WIDTH as int,
        y as int % HEIGHT as int,
        sprite_at(bytes, start, height as int),
    );
}

/// How a pixel is shown.
pub open spec fn pixel_char(set: bool) -> char {
    if set {
        '*'
    } else {
        ' '
    }
}

/// A line of dashes between two corners, as wide as the display.
pub open spec fn border_text(left: char, right: char) -> Seq<char> {
    seq![left] + Seq::new(WIDTH as nat, |c: int| '-') + seq![right, '\n']
}

/// One row of pixels between two bars.
pub open spec fn row_text(row: Seq<bool>) -> Seq<char> {
    seq!['|'] + Seq::new(WIDTH as nat, |c: int| pixel_char(row[c])) + seq!['|', '\n']
}

/// The first `rows` rows of a frame, one line each.
pub open spec fn rows_text(frame: Frame, rows: int) -> Seq<char>
    decreases rows,
{
    if rows <= 0 {
        Seq::empty()
    } else {
        rows_text(frame, rows - 1) + row_text(frame[rows - 1])
    }
}

/// A frame as text: its rows inside a border.
pub open spec fn frame_text(frame: Frame) -> Seq<char> {
    border_text('/', '\\') + rows_text(frame, HEIGHT as int) + border_text('\\', '/')
}

/// The framebuffer. Its view is the [`Frame`] it shows.
pub struct Display {
    pixels: [[bool; 64]; 32],
}

impl View for Display {
    type V = Frame;

    closed spec fn view(&self) -> Frame {
        Seq::new(HEIGHT as nat, |r: int| self.pixels@[r]@)
    }
}

impl Display {
    /// The view always has the shape of a frame.
    pub proof fn lemma_frame_wf(&self)
        ensures
            frame_wf(self@),
    {
    }

    /// A display with no pixel set.
    pub fn new() -> (display: Self)
        ensures
            display@ == blank_frame(),
    {
        let display = Self { pixels: [[false; 64]; 32] };
        assert(display@ =~~= blank_frame());
        display
    }

    /// Unsets every pixel.
    pub fn clear(&mut self)
        ensures
            final(self)@ == blank_frame(),
    {
        self.pixels = [[false; 64]; 32];
        assert(self@ =~~= blank_frame());
    }

    /// Whether the pixel in column `x` of row `y` is set; coordinates past
    /// the edge wrap around.
    pub fn pixel(&self, x: usize, y: usize) -> (set: bool)
        ensures
            set == self@[y as int % HEIGHT as int][x as int % WIDTH as int],
    {
        self.pixels[y % HEIGHT][x % WIDTH]
    }

    /// Draws the sprite of `height` rows that `mem` holds from `start` on,
    /// with its top left corner at column `x`, row `y`, both taken modulo the
    /// size of the display. Each row is one byte, its most significant bit
    /// leftmost. Rows are read and drawn one by one: where the sprite runs
    /// past the end of memory, the rows before that are drawn and the call
    /// fails. On success says whether any pixel flipped.
    pub fn draw(&mut self, x: u8, y: u8, height: u8, start: MemAddr, mem: &Memory) -> (res: Result<
        bool,
        MemoryError,
    >)
        ensures
            (final(self)@, res) == draw_spec(old(self)@, x, y, height, start as int, mem@),
    {
        let x0: usize = x as usize % WIDTH;
        let y0: usize = y as usize % HEIGHT;
        let mut changed: bool = false;
        let mut ri: usize = 0;
        proof {
            mem.lemma_size();
        }
        while ri < height as usize
            invariant
                ri <= height,
                x0 == x as int % WIDTH as int,
                y0 == y as int % HEIGHT as int,
                mem@.len() == MEMORY_SIZE,
                ri <= span_in_reach(start as int, height as int),
                self@ == draw_rows(
                    old(self)@,
                    x0 as int,
                    y0 as int,
                    sprite_at(mem@, start as int, ri as int),
                ),
                changed == sprite_lit(sprite_at(mem@, start as int, ri as int)),
            decreases height - ri,
        {
            if start >= MEMORY_SIZE {
                return Err(MemoryError::OutOfBounds);
            }
            let sprite_line: u8 = match mem.load_byte(start + ri) {
                Ok(byte) => byte,
                Err(err) => {
                    return Err(err);
                },
            };
            let flipped = self.xor_line(x0, (y0 + ri) % HEIGHT, sprite_line);
            if flipped {
                changed = true;
            }
            proof {
                let shorter = sprite_at(mem@, start as int, ri as int);
                let longer = sprite_at(mem@, start as int, ri + 1);
                assert(longer =~= shorter.push(sprite_line));
                assert(longer.drop_last() =~= shorter);
                lemma_lit_push(shorter, sprite_line);
            }
            ri += 1;
        }
        Ok(changed)
    }

    /// Draws one sprite row on row `row` from column `x0` on. Says whether a
    /// pixel flipped.
    fn xor_line(&mut self, x0: usize, row: usize, sprite_line: u8) -> (flipped: bool)
        requires
            x0 < WIDTH,
            row < HEIGHT,
        ensures
            final(self)@ == xor_row(old(self)@, x0 as int, row as int, sprite_line),
            flipped == (sprite_line != 0),
    {
        let mut flipped: bool = false;
        let mut ci: u8 = 0;
        proof {
            assert(sprite_line >> 8u8 == 0) by (bit_vector);
        }
        while ci < 8
            invariant
                ci <= 8,
                x0 < WIDTH,
                row < HEIGHT,
                forall|r: int| 0 <= r < HEIGHT && r != row ==> self@[r] == old(self)@[r],
                forall|c: int|
                    0 <= c < WIDTH ==> #[trigger] self@[row as int][c] == if column_offset(
                        x0 as int,
                        c,
                    ) < ci {
                        old(self)@[row as int][c] != row_covers(sprite_line, x0 as int, c)
                    } else {
                        old(self)@[row as int][c]
                    },
                flipped == ((sprite_line >> ((8 - ci) as u8)) != 0),
            decreases 8 - ci,
        {
            let col: usize = (x0 + ci as usize) % WIDTH;
            let bit: bool = (sprite_line >> (7 - ci)) & 1 == 1;
            let was: bool = self.pixels[row][col];
            let ghost before: Frame = self@;
            self.pixels[row][col] = was != bit;
            if bit {
                flipped = true;
            }
            proof {
                assert forall|c: int| 0 <= c < WIDTH implies #[trigger] self@[row as int][c]
                    == if column_offset(x0 as int, c) < ci + 1 {
                    old(self)@[row as int][c] != row_covers(sprite_line, x0 as int, c)
                } else {
                    old(self)@[row as int][c]
                } by {
                    lemma_offset_column(x0 as int, ci as int, c);
                    lemma_offset_column(x0 as int, ci as int, col as int);
                    if c == col {
                        assert(was == before[row as int][c]);
                    } else {
                        assert(self@[row as int][c] == before[row as int][c]);
                    }
                }
                assert(((sprite_line >> ((8 - (ci + 1)) as u8)) != 0) == ((sprite_line >> ((8
                    - ci) as u8)) != 0 || (sprite_line >> ((7 - ci) as u8)) & 1 == 1))
                    by (bit_vector)
                    requires
                        ci < 8,
                ;
            }
            ci += 1;
        }
        proof {
            assert(sprite_line >> 0u8 == sprite_line) by (bit_vector);
            assert(self@ =~~= xor_row(old(self)@, x0 as int, row as int, sprite_line));
        }
        flipped
    }

    /// The display as text, for showing it after a draw or a clear.
    pub fn render(&self) -> (text: String)
        ensures
            text@ == frame_text(self@),
    {
        let mut text = String::new();
        push_border(&mut text, '/', '\\');
        let ghost top = text@;
        let mut r: usize = 0;
        proof {
            assert(text@ =~= top + rows_text(self@, 0));
        }
        while r < HEIGHT
            invariant
                r <= HEIGHT,
                text@ == top + rows_text(self@, r as int),
            decreases HEIGHT - r,
        {
            let ghost before = text@;
            text.push('|');
            let mut c: usize = 0;
            while c < WIDTH
                invariant
                    c <= WIDTH,
                    r < HEIGHT,
                    text@ == before.push('|') + Seq::new(
                        c as nat,
                        |i: int| pixel_char(self@[r as int][i]),
                    ),
                decreases WIDTH - c,
            {
                text.push(if self.pixels[r][c] { '*' } else { ' ' });
                proof {
                    assert(text@ =~= before.push('|') + Seq::new(
                        (c + 1) as nat,
                        |i: int| pixel_char(self@[r as int][i]),
                    ));
                }
                c += 1;
            }
            text.push('|');
            text.push('\n');
            proof {
                assert(text@ =~= before + row_text(self@[r as int]));
                assert(text@ =~= top + rows_text(self@, r + 1));
            }
            r += 1;
        }
        push_border(&mut text, '\\', '/');
        proof {
            assert(text@ =~= frame_text(self@));
        }
        text
    }
}

/// Appends a border line.
fn push_border(text: &mut String, left: char, right: char)
    ensures
        final(text)@ == old(text)@ + border_text(left, right),
{
    text.push(left);
    let mut c: usize = 0;
    while c < WIDTH
        invariant
            c <= WIDTH,
            text@ == old(text)@.push(left) + Seq::new(c as nat, |i: int| '-'),
        decreases WIDTH - c,
    {
        text.push('-');
        proof {
            assert(text@ =~= old(text)@.push(left) + Seq::new((c + 1) as nat, |i: int| '-'));
        }
        c += 1;
    }
    text.push(right);
    text.push('\n');
    proof {
        assert(text@ =~= old(text)@ + border_text(left, right));
    }
}

} // verus!
