//! The framebuffer: a 64x32 grid of one-bit pixels that sprites are drawn
//! into by exclusive or.

use vstd::prelude::*;

verus! {

/// A change to the framebuffer.
#[derive(Debug, PartialEq, Eq)]
pub enum ScreenUpdate {
    /// Draw the sprite rows `bytes`, top row first, with the top left corner
    /// at column `coords.0` and row `coords.1`.
    Draw { bytes: Vec<u8>, coords: (usize, usize) },
    /// Unset every pixel.
    Clear,
}

/// The framebuffer. Its view is the grid of pixels as rows of columns:
/// `screen@[y][x]` tells whether the pixel in row `y`, column `x` is set.
pub struct Screen {
    display: [[u8; 64]; 32],
}

/// A grid of `Screen::HEIGHT` rows of `Screen::WIDTH` pixels each.
pub open spec fn is_grid(grid: Seq<Seq<bool>>) -> bool {
    &&& grid.len() == 32
    &&& forall|y: int| 0 <= y < 32 ==> (#[trigger] grid[y]).len() == 64
}

/// The grid with no pixel set.
pub open spec fn blank() -> Seq<Seq<bool>> {
    Seq::new(32, |y: int| Seq::new(64, |x: int| false))
}

/// Bit `i` of a sprite row, counted from the leftmost pixel, which is the
/// most significant bit.
pub open spec fn sprite_bit(byte: u8, i: int) -> bool {
    0 <= i < 8 && (byte >> ((7 - i) as usize)) & 1 == 1
}

/// Whether a sprite row whose leftmost pixel is in column `x` has a set bit
/// over column `c`. Columns wrap around at the right edge.
pub open spec fn row_covers(byte: u8, x: int, c: int) -> bool {
    sprite_bit(byte, (c - x) % 64)
}

/// Whether a sprite drawn at column `x`, row `y` flips the pixel in column
/// `c`, row `r`: whether an odd number of its set bits lie over that pixel.
/// Rows wrap around at the bottom edge, so a sprite of more than 32 rows
/// comes to lie over itself.
pub open spec fn flips(sprite: Seq<u8>, x: int, y: int, c: int, r: int) -> bool
    decreases sprite.len(),
{
    if sprite.len() == 0 {
        false
    } else {
        let k = sprite.len() - 1;
        flips(sprite.drop_last(), x, y, c, r) != ((y + k) % 32 == r && row_covers(sprite[k], x, c))
    }
}

/// The grid after a sprite has been drawn into `grid` at column `x`, row `y`.
pub open spec fn drawn(grid: Seq<Seq<bool>>, sprite: Seq<u8>, x: int, y: int) -> Seq<Seq<bool>> {
    Seq::new(32, |r: int| Seq::new(64, |c: int| grid[r][c] != flips(sprite, x, y, c, r)))
}

/// Whether bit `i` of row `k` of the sprite unsets a pixel: the bit is set,
/// and so is the pixel under it once the rows above `k` have been drawn.
pub open spec fn erases(grid: Seq<Seq<bool>>, sprite: Seq<u8>, x: int, y: int, k: int, i: int) -> bool {
    &&& sprite_bit(sprite[k], i)
    &&& drawn(grid, sprite.take(k), x, y)[(y + k) % 32][(x + i) % 64]
}

/// Whether the first `rows` rows of the sprite, drawn into `grid` at column
/// `x`, row `y`, unset at least one pixel that was set.
pub open spec fn collides_within(grid: Seq<Seq<bool>>, sprite: Seq<u8>, x: int, y: int, rows: int) -> bool {
    exists|k: int, i: int| 0 <= k < rows && 0 <= i < 8 && #[trigger] erases(grid, sprite, x, y, k, i)
}

/// Whether one of the first `bits` bits of row `k` of the sprite unsets a
/// pixel.
spec fn row_collides_within(
    grid: Seq<Seq<bool>>,
    sprite: Seq<u8>,
    x: int,
    y: int,
    k: int,
    bits: int,
) -> bool {
    exists|i: int| 0 <= i < bits && #[trigger] erases(grid, sprite, x, y, k, i)
}

/// Whether drawing the sprite into `grid` at column `x`, row `y` unsets at
/// least one pixel that was set.
pub open spec fn collides(grid: Seq<Seq<bool>>, sprite: Seq<u8>, x: int, y: int) -> bool {
    collides_within(grid, sprite, x, y, sprite.len() as int)
}

/// The four bytes that render one pixel.
pub open spec fn pixel_colour(set: bool) -> Seq<u8> {
    if set {
        seq![0x00u8, 0xCCu8, 0x00u8, 0xFFu8]
    } else {
        seq![0x00u8, 0x00u8, 0x00u8, 0xFFu8]
    }
}

/// What an exclusive or with one bit of a sprite row does to a cell that
/// holds 0 or 1.
proof fn lemma_bit_arith(curr: u8, byte: u8, shift: usize)
    by (bit_vector)
    requires
        curr <= 1,
        shift < 8,
    ensures
        (byte >> shift) & 1 <= 1,
        curr ^ ((byte >> shift) & 1) <= 1,
        (curr ^ ((byte >> shift) & 1)) != 0 <==> ((curr != 0) != ((byte >> shift) & 1 == 1)),
{
}

/// Drawing one more row flips the pixels that this row covers.
proof fn lemma_flips_step(sprite: Seq<u8>, x: int, y: int, n: int, c: int, r: int)
    requires
        0 < n <= sprite.len(),
    ensures
        flips(sprite.take(n), x, y, c, r) == (flips(sprite.take(n - 1), x, y, c, r) != ((y + n - 1)
            % 32 == r && row_covers(sprite[n - 1], x, c))),
{
    assert(sprite.take(n).drop_last() =~= sprite.take(n - 1));
}

/// Going `k` rows down from row `y` and back up gives `k`, and the other
/// way round.
proof fn lemma_wrap_rows(y: int, k: int, r: int)
    ensures
        0 <= k < 32 ==> ((y + k) % 32 - y) % 32 == k,
        0 <= r < 32 ==> (y + (r - y) % 32) % 32 == r,
{
}

/// Going `i` columns right from column `x` and back gives `i`, and the
/// other way round.
proof fn lemma_wrap_columns(x: int, i: int, c: int)
    ensures
        0 <= i < 64 ==> ((x + i) % 64 - x) % 64 == i,
        0 <= c < 64 ==> (x + (c - x) % 64) % 64 == c,
{
}

/// While a sprite is no taller than the grid its rows lie on distinct grid
/// rows, so a pixel is flipped exactly when the one sprite row that lies on
/// its grid row covers it.
proof fn lemma_flips_short(sprite: Seq<u8>, x: int, y: int, n: int, c: int, r: int)
    requires
        0 <= n <= sprite.len(),
        n <= 32,
        0 <= r < 32,
    ensures
        flips(sprite.take(n), x, y, c, r) == ((r - y) % 32 < n && row_covers(
            sprite[(r - y) % 32],
            x,
            c,
        )),
    decreases n,
{
    if n > 0 {
        lemma_flips_short(sprite, x, y, n - 1, c, r);
        lemma_flips_step(sprite, x, y, n, c, r);
        lemma_wrap_rows(y, n - 1, r);
    }
}

/// While a sprite is no taller than the grid, a bit unsets a pixel exactly
/// when the bit is set and the pixel under it was set before the draw.
proof fn lemma_erases_short(grid: Seq<Seq<bool>>, sprite: Seq<u8>, x: int, y: int, k: int, i: int)
    requires
        is_grid(grid),
        0 <= k < sprite.len(),
        sprite.len() <= 32,
        0 <= i < 8,
    ensures
        erases(grid, sprite, x, y, k, i) == (sprite_bit(sprite[k], i) && grid[(y + k) % 32][(x + i)
            % 64]),
{
    lemma_flips_short(sprite, x, y, k, (x + i) % 64, (y + k) % 32);
    lemma_wrap_rows(y, k, 0);
}

/// Drawing the same sprite at the same place twice gives back the grid as
/// it was.
pub proof fn lemma_draw_twice_restores(grid: Seq<Seq<bool>>, sprite: Seq<u8>, x: int, y: int)
    requires
        is_grid(grid),
    ensures
        drawn(drawn(grid, sprite, x, y), sprite, x, y) == grid,
{
    assert(drawn(drawn(grid, sprite, x, y), sprite, x, y) =~~= grid);
}

/// A sprite no taller than the grid collides exactly when some pixel that
/// was set before the draw is unset after it.
pub proof fn lemma_collision_is_erasure(grid: Seq<Seq<bool>>, sprite: Seq<u8>, x: int, y: int)
    requires
        is_grid(grid),
        sprite.len() <= 32,
    ensures
        collides(grid, sprite, x, y) <==> exists|r: int, c: int|
            0 <= r < 32 && 0 <= c < 64 && #[trigger] grid[r][c] && !drawn(grid, sprite, x, y)[r][c],
{
    let len = sprite.len() as int;
    assert(sprite.take(len) =~= sprite);
    if collides(grid, sprite, x, y) {
        let (k, i) = choose|k: int, i: int|
            0 <= k < len && 0 <= i < 8 && #[trigger] erases(grid, sprite, x, y, k, i);
        let r = (y + k) % 32;
        let c = (x + i) % 64;
        lemma_erases_short(grid, sprite, x, y, k, i);
        lemma_flips_short(sprite, x, y, len, c, r);
        lemma_wrap_rows(y, k, 0);
        lemma_wrap_columns(x, i, 0);
        assert(grid[r][c] && !drawn(grid, sprite, x, y)[r][c]);
    }
    if exists|r: int, c: int|
        0 <= r < 32 && 0 <= c < 64 && #[trigger] grid[r][c] && !drawn(grid, sprite, x, y)[r][c] {
        let (r, c) = choose|r: int, c: int|
            0 <= r < 32 && 0 <= c < 64 && #[trigger] grid[r][c] && !drawn(grid, sprite, x, y)[r][c];
        let k = (r - y) % 32;
        let i = (c - x) % 64;
        lemma_flips_short(sprite, x, y, len, c, r);
        lemma_wrap_rows(y, 0, r);
        lemma_wrap_columns(x, 0, c);
        lemma_erases_short(grid, sprite, x, y, k, i);
        assert(erases(grid, sprite, x, y, k, i));
    }
}

/// A sprite no taller than the grid, drawn where no pixel under it is set,
/// does not collide.
pub proof fn lemma_unset_region_never_collides(
    grid: Seq<Seq<bool>>,
    sprite: Seq<u8>,
    x: int,
    y: int,
)
    requires
        is_grid(grid),
        sprite.len() <= 32,
        forall|k: int, i: int|
            0 <= k < sprite.len() && 0 <= i < 8 ==> !#[trigger] grid[(y + k) % 32][(x + i) % 64],
    ensures
        !collides(grid, sprite, x, y),
{
    assert forall|k: int, i: int| 0 <= k < sprite.len() && 0 <= i < 8 implies !#[trigger] erases(
        grid,
        sprite,
        x,
        y,
        k,
        i,
    ) by {
        lemma_erases_short(grid, sprite, x, y, k, i);
    }
}

/// A sprite of at least one row whose bits are all set, drawn where every
/// pixel under it is set, collides.
pub proof fn lemma_solid_sprite_on_set_region_collides(
    grid: Seq<Seq<bool>>,
    sprite: Seq<u8>,
    x: int,
    y: int,
)
    requires
        is_grid(grid),
        sprite.len() >= 1,
        forall|k: int| 0 <= k < sprite.len() ==> sprite[k] == 0xFF,
        forall|k: int, i: int|
            0 <= k < sprite.len() && 0 <= i < 8 ==> #[trigger] grid[(y + k) % 32][(x + i) % 64],
    ensures
        collides(grid, sprite, x, y),
{
    assert((0xFFu8 >> 7usize) & 1 == 1) by (bit_vector);
    assert(sprite_bit(sprite[0], 0));
    assert(grid[(y + 0) % 32][(x + 0) % 64]);
    assert(erases(grid, sprite, x, y, 0, 0));
}

impl View for Screen {
    type V = Seq<Seq<bool>>;

    closed spec fn view(&self) -> Seq<Seq<bool>> {
        Seq::new(32, |y: int| Seq::new(64, |x: int| self.display@[y]@[x] != 0))
    }
}

impl Screen {
    /// The number of pixels in a row.
    pub const WIDTH: usize = 64;

    /// The number of rows.
    pub const HEIGHT: usize = 32;

    /// The four bytes, red, green, blue and alpha, that render a set pixel.
    pub const COLOR: [u8; 4] = [0x00, 0xCC, 0x00, 0xFF];

    /// Every cell holds 0 or 1.
    #[verifier::type_invariant]
    spec fn cells_are_bits(&self) -> bool {
        forall|y: int, x: int| 0 <= y < 32 && 0 <= x < 64 ==> #[trigger] self.display@[y]@[x] <= 1
    }

    /// The view of any screen is a grid.
    pub proof fn lemma_view_is_grid(&self)
        ensures
            is_grid(self@),
    {
    }

    /// A screen with no pixel set.
    pub fn new() -> (screen: Screen)
        ensures
            screen@ == blank(),
    {
        let screen = Screen { display: [[0u8; 64]; 32] };
        assert(screen@ =~~= blank());
        screen
    }

    /// Applies one update. `Clear` unsets every pixel and reports nothing.
    /// `Draw` flips the pixels under the set bits of the sprite, wrapping
    /// around at the right and bottom edges, and reports whether any pixel
    /// that was set became unset.
    pub fn update(&mut self, msg: &ScreenUpdate) -> (res: Option<bool>)
        ensures
            match *msg {
                ScreenUpdate::Clear => res is None && final(self)@ == blank(),
                ScreenUpdate::Draw { bytes, coords } => {
                    &&& res == Some(collides(old(self)@, bytes@, coords.0 as int, coords.1 as int))
                    &&& final(self)@ == drawn(old(self)@, bytes@, coords.0 as int, coords.1 as int)
                },
            },
    {
        match msg {
            ScreenUpdate::Draw { coords, bytes } => {
                let ghost grid = self@;
                let ghost gx = coords.0 as int;
                let ghost gy = coords.1 as int;
                let x: usize = coords.0 % 64;
                let mut y: usize = coords.1 % 32;
                let mut col = false;
                proof {
                    assert(drawn(grid, bytes@.take(0), gx, gy) =~~= grid);
                }
                for n in 0..bytes.len()
                    invariant
                        x == gx % 64,
                        y == (gy + n) % 32,
                        self@ == drawn(grid, bytes@.take(n as int), gx, gy),
                        col == collides_within(grid, bytes@, gx, gy, n as int),
                {
                    let byte = bytes[n];
                    let ghost above = self@;
                    for i in 0..8usize
                        invariant
                            x == gx % 64,
                            y == (gy + n) % 32,
                            n < bytes.len(),
                            byte == bytes@[n as int],
                            above == drawn(grid, bytes@.take(n as int), gx, gy),
                            forall|r: int, c: int|
                                0 <= r < 32 && 0 <= c < 64 ==> (#[trigger] self.display@[r]@[c] != 0) == (
                                above[r][c] != (r == y && (c - gx) % 64 < i && sprite_bit(
                                    byte,
                                    (c - gx) % 64,
                                ))),
                            col == (collides_within(grid, bytes@, gx, gy, n as int)
                                || row_collides_within(grid, bytes@, gx, gy, n as int, i as int)),
                    {
                        let index = (x + i) % 64;
                        let curr = self.display[y][index];
                        let bit = (byte >> (7 - i)) & 1;
                        let next = curr ^ bit;
                        proof {
                            use_type_invariant(&*self);
                            lemma_bit_arith(curr, byte, (7 - i) as usize);
                            assert(index == (gx + i) % 64);
                            assert((index - gx) % 64 == i);
                            assert(erases(grid, bytes@, gx, gy, n as int, i as int) == (curr != 0
                                && bit == 1));
                        }
                        self.display[y][index] = next;
                        col = col || (curr != next && next == 0);
                    }
                    proof {
                        assert forall|r: int, c: int| 0 <= r < 32 && 0 <= c < 64 implies (
                        #[trigger] self.display@[r]@[c] != 0) == (grid[r][c] != flips(
                            bytes@.take(n + 1),
                            gx,
                            gy,
                            c,
                            r,
                        )) by {
                            lemma_flips_step(bytes@, gx, gy, n + 1, c, r);
                        }
                        assert(self@ =~~= drawn(grid, bytes@.take(n + 1), gx, gy));
                    }
                    y = (y + 1) % 32;
                }
                proof {
                    assert(bytes@.take(bytes@.len() as int) =~= bytes@);
                }
                Some(col)
            },
            ScreenUpdate::Clear => {
                self.display = [[0; 64]; 32];
                assert(self@ =~~= blank());
                None
            },
        }
    }

    /// Renders the grid into `frame`, four bytes to a pixel, row after row
    /// from the top left. A set pixel gets `Screen::COLOR`, an unset one
    /// opaque black. Bytes behind the last whole pixel stay as they are.
    /// The frame may hold no more pixels than the screen has.
    pub fn draw(&self, frame: &mut [u8])
        requires
            old(frame)@.len() / 4 <= 64 * 32,
        ensures
            final(frame)@.len() == old(frame)@.len(),
            forall|j: int|
                0 <= j < old(frame)@.len() ==> #[trigger] final(frame)@[j] == (if j / 4 < old(
                    frame,
                )@.len() / 4 {
                    pixel_colour(self@[j / 4 / 64][j / 4 % 64])[j % 4]
                } else {
                    old(frame)@[j]
                }),
    {
        let pixels = frame.len() / 4;
        for p in 0..pixels
            invariant
                frame@.len() == old(frame)@.len(),
                pixels == frame@.len() / 4,
                pixels <= 64 * 32,
                forall|j: int|
                    0 <= j < frame@.len() ==> #[trigger] frame@[j] == (if j / 4 < p {
                        pixel_colour(self@[j / 4 / 64][j / 4 % 64])[j % 4]
                    } else {
                        old(frame)@[j]
                    }),
        {
            let x = p % Screen::WIDTH;
            let y = p / Screen::WIDTH;
            let color: [u8; 4] = if self.display[y][x] != 0 {
                Screen::COLOR
            } else {
                [0x00, 0x00, 0x00, 0xFF]
            };
            frame[4 * p] = color[0];
            frame[4 * p + 1] = color[1];
            frame[4 * p + 2] = color[2];
            frame[4 * p + 3] = color[3];
        }
    }
}

} // verus!
