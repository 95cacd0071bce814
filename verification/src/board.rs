use vstd::prelude::*;
use crate::tetro::{Tetro, real_tile, tiles_fit};

verus! {

/// Columns of the playing field.
pub const WIDTH: usize = 10;

/// Rows of the playing field, counted from the top.
pub const HEIGHT: usize = 22;

/// Rows at the top of the field that are not shown.
pub const HIDDEN: usize = 2;

/// How a placement of a piece fares on the field.
#[derive(PartialEq, Eq, Structural, Clone, Copy, Debug)]
pub enum Sts {
    /// Every tile is on an empty cell or above the field.
    Good,
    /// A tile lies left or right of the field.
    Invalid,
    /// A tile lies below the field or on an occupied cell.
    Collision,
}

/// The playing field: which cells are occupied, and the color of each.
#[derive(Clone, Copy)]
pub struct Board {
    pub tiles: [[bool; WIDTH]; HEIGHT],
    pub colors: [[u8; WIDTH]; HEIGHT],
}

/// The occupied cells, row by row.
pub open spec fn cells(b: Board) -> Seq<Seq<bool>> {
    b.tiles@.map_values(|row: [bool; WIDTH]| row@)
}

/// The cell colors, row by row.
pub open spec fn cell_colors(b: Board) -> Seq<Seq<u8>> {
    b.colors@.map_values(|row: [u8; WIDTH]| row@)
}

/// A grid of `HEIGHT` rows of `WIDTH` cells.
pub open spec fn field_shaped<V>(g: Seq<Seq<V>>) -> bool {
    g.len() == HEIGHT && forall|r: int| 0 <= r < HEIGHT ==> #[trigger] g[r].len() == WIDTH
}

/// A field-shaped grid with `v` in every cell.
pub open spec fn filled<V>(v: V) -> Seq<Seq<V>> {
    Seq::new(HEIGHT as nat, |r: int| Seq::new(WIDTH as nat, |c: int| v))
}

/// How one tile at field position `p` fares on the grid `g`.
pub open spec fn tile_status(g: Seq<Seq<bool>>, p: (i16, i16)) -> Sts {
    if p.0 < 0 || p.0 >= WIDTH {
        Sts::Invalid
    } else if p.1 >= HEIGHT {
        Sts::Collision
    } else if p.1 >= 0 && g[p.1 as int][p.0 as int] {
        Sts::Collision
    } else {
        Sts::Good
    }
}

/// The status of the first of tiles `k..4` that is not `Good`, or `Good`.
pub open spec fn status_from(g: Seq<Seq<bool>>, t: Tetro, k: int) -> Sts
    decreases 4 - k,
{
    if k >= 4 {
        Sts::Good
    } else if tile_status(g, real_tile(t, k)) != Sts::Good {
        tile_status(g, real_tile(t, k))
    } else {
        status_from(g, t, k + 1)
    }
}

/// What `validate` answers for the piece: the status of its first tile,
/// in tile order, that is not `Good`.
pub open spec fn placement(g: Seq<Seq<bool>>, t: Tetro) -> Sts {
    status_from(g, t, 0)
}

/// Every tile of the piece lies on the field.
pub open spec fn on_field(t: Tetro) -> bool {
    &&& tiles_fit(t)
    &&& forall|i: int|
        #![trigger real_tile(t, i)]
        0 <= i < 4 ==> 0 <= real_tile(t, i).0 < WIDTH && 0 <= real_tile(t, i).1 < HEIGHT
}

/// The piece has a tile on cell (`row`, `col`).
pub open spec fn covers(t: Tetro, row: int, col: int) -> bool {
    ||| real_tile(t, 0).0 == col && real_tile(t, 0).1 == row
    ||| real_tile(t, 1).0 == col && real_tile(t, 1).1 == row
    ||| real_tile(t, 2).0 == col && real_tile(t, 2).1 == row
    ||| real_tile(t, 3).0 == col && real_tile(t, 3).1 == row
}

/// The grid with `v` written on every cell of the piece.
pub open spec fn lock_cells<V>(g: Seq<Seq<V>>, t: Tetro, v: V) -> Seq<Seq<V>> {
    Seq::new(
        g.len(),
        |r: int| Seq::new(g[r].len(), |c: int| if covers(t, r, c) { v } else { g[r][c] }),
    )
}

/// Every cell of `row` is occupied.
pub open spec fn row_full(g: Seq<Seq<bool>>, row: int) -> bool {
    forall|c: int| 0 <= c < WIDTH ==> #[trigger] g[row][c]
}

/// The full rows among `lo..hi`, in increasing order.
pub open spec fn full_rows(g: Seq<Seq<bool>>, lo: int, hi: int) -> Seq<usize>
    decreases hi - lo,
{
    if hi <= lo {
        Seq::empty()
    } else if row_full(g, hi - 1) {
        full_rows(g, lo, hi - 1).push((hi - 1) as usize)
    } else {
        full_rows(g, lo, hi - 1)
    }
}

/// The grid where every row `r` of `lo..hi` holds what row `r - d` held.
pub open spec fn shift_rows<V>(g: Seq<Seq<V>>, lo: int, hi: int, d: int) -> Seq<Seq<V>> {
    Seq::new(g.len(), |r: int| if lo <= r < hi { g[r - d] } else { g[r] })
}

/// Clearing `line`: the rows above it move down one; row 0 stays.
pub open spec fn drop_row<V>(g: Seq<Seq<V>>, line: int) -> Seq<Seq<V>> {
    shift_rows(g, 1, line + 1, 1)
}

/// Clearing `lines` one after the other, in their order.
pub open spec fn drop_rows<V>(g: Seq<Seq<V>>, lines: Seq<usize>) -> Seq<Seq<V>>
    decreases lines.len(),
{
    if lines.len() == 0 {
        g
    } else {
        drop_row(drop_rows(g, lines.drop_last()), lines.last() as int)
    }
}

/// How many of `lines` lie below row `r` (have a larger row number).
pub open spec fn count_below(lines: Seq<usize>, r: int) -> int
    decreases lines.len(),
{
    if lines.len() == 0 {
        0
    } else {
        count_below(lines.drop_last(), r) + if lines.last() > r {
            1int
        } else {
            0int
        }
    }
}

/// Strictly increasing row numbers.
pub open spec fn increasing(lines: Seq<usize>) -> bool {
    forall|i: int, j: int| 0 <= i < j < lines.len() ==> #[trigger] lines[i] < #[trigger] lines[j]
}

/// The piece has a tile on cell (`row`, `col`) among its first `n` tiles.
pub open spec fn covers_upto(t: Tetro, row: int, col: int, n: int) -> bool {
    ||| n > 0 && real_tile(t, 0).0 == col && real_tile(t, 0).1 == row
    ||| n > 1 && real_tile(t, 1).0 == col && real_tile(t, 1).1 == row
    ||| n > 2 && real_tile(t, 2).0 == col && real_tile(t, 2).1 == row
    ||| n > 3 && real_tile(t, 3).0 == col && real_tile(t, 3).1 == row
}

impl Board {
    /// The field's shape holds of every board.
    pub proof fn lemma_shape(self)
        ensures
            field_shaped(cells(self)),
            field_shaped(cell_colors(self)),
            forall|r: int, c: int|
                0 <= r < HEIGHT && 0 <= c < WIDTH ==> cells(self)[r][c] == self.tiles[r][c]
                    && cell_colors(self)[r][c] == self.colors[r][c],
    {
    }

    /// An empty field.
    pub fn new() -> (b: Board)
        ensures
            cells(b) == filled(false),
            cell_colors(b) == filled(0u8),
    {
        let b = Board { tiles: [[false;WIDTH];HEIGHT], colors: [[0;WIDTH];HEIGHT] };
        assert(cells(b) =~~= filled(false));
        assert(cell_colors(b) =~~= filled(0u8));
        b
    }

    /// Checks whether a placement of `tetro` is valid: the status of its
    /// first tile that is left or right of the field (`Invalid`), below it
    /// or on an occupied cell (`Collision`); `Good` if there is none.
    pub fn validate(&mut self, tetro: &Tetro) -> (s: Sts)
        requires
            tiles_fit(*tetro),
        ensures
            *final(self) == *old(self),
            s == placement(cells(*old(self)), *tetro),
            s == Sts::Good <==> forall|i: int|
                #![trigger tetro.tiles[i]]
                0 <= i < 4 ==> {
                    let x = tetro.tiles[i].0 + tetro.pos.0;
                    let y = tetro.tiles[i].1 + tetro.pos.1;
                    &&& 0 <= x < WIDTH
                    &&& y < HEIGHT
                    &&& y >= 0 ==> !old(self).tiles[y][x]
                },
            s == Sts::Invalid ==> exists|i: int|
                #![trigger tetro.tiles[i]]
                0 <= i < 4 && (tetro.tiles[i].0 + tetro.pos.0 < 0 || tetro.tiles[i].0 + tetro.pos.0
                    >= WIDTH),
            s == Sts::Collision ==> exists|i: int|
                #![trigger tetro.tiles[i]]
                0 <= i < 4 && {
                    let x = tetro.tiles[i].0 + tetro.pos.0;
                    let y = tetro.tiles[i].1 + tetro.pos.1;
                    &&& 0 <= x < WIDTH
                    &&& (y >= HEIGHT || (y >= 0 && old(self).tiles[y][x]))
                },
    {
        proof {
            lemma_placement_explicit(*self, *tetro);
        }
        let w = WIDTH as i16;
        let h = HEIGHT as i16;
        let tiles = tetro.real_tiles();
        for i in 0..4
            invariant
                forall|j: int| 0 <= j < 4 ==> tiles[j] == real_tile(*tetro, j),
                tiles_fit(*tetro),
                w == WIDTH,
                h == HEIGHT,
                placement(cells(*self), *tetro) == status_from(cells(*self), *tetro, i as int),
        {
            let tile = tiles[i];
            assert(tile == real_tile(*tetro, i as int));
            proof {
                lemma_placement_explicit(*self, *tetro);
            }
            if tile.0 < 0 || tile.0 >= w {
                return Sts::Invalid;
            } else if tile.1 >= h {
                return Sts::Collision;
            } else if tile.1 >= 0 && self.tiles[tile.1 as usize][tile.0 as usize] {
                return Sts::Collision;
            }
        }
        return Sts::Good;
    }

    /// Writes the piece into the field: each of its cells becomes `occ`
    /// and takes the piece's color.
    pub fn lock_tetro(&mut self, tetro: &Tetro, occ: bool)
        requires
            on_field(*tetro),
        ensures
            cells(*final(self)) == lock_cells(cells(*old(self)), *tetro, occ),
            cell_colors(*final(self)) == lock_cells(cell_colors(*old(self)), *tetro, tetro.color),
            forall|i: int|
                #![trigger tetro.tiles[i]]
                0 <= i < 4 ==> {
                    let x = tetro.tiles[i].0 + tetro.pos.0;
                    let y = tetro.tiles[i].1 + tetro.pos.1;
                    final(self).tiles[y][x] == occ && final(self).colors[y][x] == tetro.color
                },
            forall|r: int, c: int|
                #![trigger final(self).tiles[r][c]]
                #![trigger final(self).colors[r][c]]
                0 <= r < HEIGHT && 0 <= c < WIDTH && (forall|i: int|
                    #![trigger tetro.tiles[i]]
                    0 <= i < 4 ==> tetro.tiles[i].0 + tetro.pos.0 != c || tetro.tiles[i].1
                        + tetro.pos.1 != r) ==> final(self).tiles[r][c] == old(self).tiles[r][c]
                    && final(self).colors[r][c] == old(self).colors[r][c],
    {
        let tiles = tetro.real_tiles();
        for i in 0..4
            invariant
                on_field(*tetro),
                forall|j: int| 0 <= j < 4 ==> tiles[j] == real_tile(*tetro, j),
                forall|r: int, c: int|
                    #![trigger self.tiles[r][c]]
                    #![trigger self.colors[r][c]]
                    0 <= r < HEIGHT && 0 <= c < WIDTH ==> {
                        &&& self.tiles[r][c] == if covers_upto(*tetro, r, c, i as int) {
                            occ
                        } else {
                            old(self).tiles[r][c]
                        }
                        &&& self.colors[r][c] == if covers_upto(*tetro, r, c, i as int) {
                            tetro.color
                        } else {
                            old(self).colors[r][c]
                        }
                    },
        {
            let tile = tiles[i];
            assert(tile == real_tile(*tetro, i as int));
            let y = tile.1 as usize;
            let x = tile.0 as usize;
            let ghost before = *self;
            self.tiles[y][x] = occ;
            self.colors[y][x] = tetro.color;
            assert(self.tiles[y as int]@ =~= before.tiles[y as int]@.update(x as int, occ));
            assert(self.tiles@ =~= before.tiles@.update(y as int, self.tiles[y as int]));
            assert(self.colors[y as int]@ =~= before.colors[y as int]@.update(
                x as int,
                tetro.color,
            ));
            assert(self.colors@ =~= before.colors@.update(y as int, self.colors[y as int]));
            assert forall|r: int, c: int| 0 <= r < HEIGHT && 0 <= c < WIDTH implies {
                &&& self.tiles[r][c] == if covers_upto(*tetro, r, c, i + 1) {
                    occ
                } else {
                    old(self).tiles[r][c]
                }
                &&& self.colors[r][c] == if covers_upto(*tetro, r, c, i + 1) {
                    tetro.color
                } else {
                    old(self).colors[r][c]
                }
            } by {
                if r != y || c != x {
                    assert(self.tiles[r][c] == before.tiles[r][c]);
                    assert(self.colors[r][c] == before.colors[r][c]);
                }
            }
        }
        assert forall|i: int| 0 <= i < 4 implies real_tile(*tetro, i).0 == tetro.tiles[i].0
            + tetro.pos.0 && real_tile(*tetro, i).1 == tetro.tiles[i].1 + tetro.pos.1 by {
            assert(crate::tetro::fits_i16(tetro.tiles[i].0 + tetro.pos.0));
            assert(crate::tetro::fits_i16(tetro.tiles[i].1 + tetro.pos.1));
        }
        assert forall|i: int|
            #![trigger tetro.tiles[i]]
            0 <= i < 4 implies {
                let x = tetro.tiles[i].0 + tetro.pos.0;
                let y = tetro.tiles[i].1 + tetro.pos.1;
                self.tiles[y][x] == occ && self.colors[y][x] == tetro.color
            } by {
            let x = tetro.tiles[i].0 + tetro.pos.0;
            let y = tetro.tiles[i].1 + tetro.pos.1;
            assert(real_tile(*tetro, i).0 == x && real_tile(*tetro, i).1 == y);
            assert(0 <= real_tile(*tetro, i).0 < WIDTH);
            assert(covers_upto(*tetro, y, x, 4));
        }
        assert(cells(*self) =~~= lock_cells(cells(*old(self)), *tetro, occ));
        assert(cell_colors(*self) =~~= lock_cells(cell_colors(*old(self)), *tetro, tetro.color));
    }

    /// The full rows from row `max` down to the bottom, in increasing order.
    pub fn check_lines(&mut self, max: usize) -> (lines: Vec<usize>)
        ensures
            *final(self) == *old(self),
            lines@ == full_rows(cells(*old(self)), max as int, HEIGHT as int),
            increasing(lines@),
            forall|k: int|
                0 <= k < lines@.len() ==> max <= #[trigger] lines@[k] < HEIGHT && forall|c: int|
                    0 <= c < WIDTH ==> #[trigger] cells(*old(self))[lines@[k] as int][c],
            forall|r: int|
                #![trigger lines@.contains(r as usize)]
                max <= r < HEIGHT && (forall|c: int| 0 <= c < WIDTH ==> #[trigger] cells(*old(self))[r][c])
                    ==> lines@.contains(r as usize),
    {
        let mut cleared_lines = Vec::<usize>::new();
        if max >= HEIGHT {
            return cleared_lines;
        }
        for i in max..HEIGHT
            invariant
                max <= HEIGHT,
                cleared_lines@ == full_rows(cells(*self), max as int, i as int),
        {
            let mut cleared = true;
            for j in 0..WIDTH
                invariant
                    i < HEIGHT,
                    cleared <==> forall|c: int| 0 <= c < j ==> #[trigger] self.tiles[i as int][c],
            {
                if self.tiles[i][j] == false {
                    cleared = false;
                }
            }
            proof {
                self.lemma_shape();
                assert forall|c: int| 0 <= c < WIDTH implies #[trigger] cells(*self)[i as int][c]
                    == self.tiles[i as int][c] by {}
                if cleared {
                    assert(row_full(cells(*self), i as int));
                } else {
                    let c = choose|c: int| 0 <= c < WIDTH && !#[trigger] self.tiles[i as int][c];
                    assert(!cells(*self)[i as int][c]);
                }
            }
            assert(cleared <==> row_full(cells(*self), i as int));
            if cleared {
                cleared_lines.push(i);
            }
        }
        proof {
            lemma_full_rows(cells(*self), max as int, HEIGHT as int);
            let g = cells(*self);
            let fr = full_rows(g, max as int, HEIGHT as int);
            assert forall|k: int| #![trigger fr[k]] 0 <= k < fr.len() implies forall|c: int|
                0 <= c < WIDTH ==> #[trigger] g[fr[k] as int][c] by {
                assert(row_full(g, fr[k] as int));
            }
            assert forall|i: int, j: int| 0 <= i < j < fr.len() implies #[trigger] fr[i] < #[trigger] fr[j] by {}
            assert forall|r: int|
                #![trigger fr.contains(r as usize)]
                max <= r < HEIGHT && (forall|c: int| 0 <= c < WIDTH ==> #[trigger] g[r][c])
                implies fr.contains(r as usize) by {
                assert(row_full(g, r));
            }
        }
        return cleared_lines;
    }

    /// Moves rows down by `distance`: every row `r` with
    /// `lines.0 < r < lines.1 + distance` takes what row `r - distance`
    /// held; the other rows stay.
    pub fn gravitate(&mut self, lines: (usize, usize), distance: usize)
        requires
            lines.0 < usize::MAX,
            lines.1 + distance <= usize::MAX,
            lines.0 + 1 < lines.1 + distance ==> lines.1 + distance <= HEIGHT && distance <= lines.0
                + 1,
        ensures
            forall|r: int|
                0 <= r < HEIGHT ==> {
                    &&& #[trigger] final(self).tiles[r] == if lines.0 + 1 <= r < lines.1 + distance {
                        old(self).tiles[r - distance]
                    } else {
                        old(self).tiles[r]
                    }
                    &&& final(self).colors[r] == if lines.0 + 1 <= r < lines.1 + distance {
                        old(self).colors[r - distance]
                    } else {
                        old(self).colors[r]
                    }
                },
            cells(*final(self)) == shift_rows(
                cells(*old(self)),
                lines.0 + 1,
                lines.1 + distance,
                distance as int,
            ),
            cell_colors(*final(self)) == shift_rows(
                cell_colors(*old(self)),
                lines.0 + 1,
                lines.1 + distance,
                distance as int,
            ),
    {
        let lo = lines.0 + 1;
        let hi = lines.1 + distance;
        let mut i = hi;
        while i > lo
            invariant
                lo == lines.0 + 1,
                hi == lines.1 + distance,
                lo < hi ==> hi <= HEIGHT && distance <= lo,
                lo <= i || hi <= lo,
                i <= hi,
                hi <= lo ==> i == hi,
                forall|r: int|
                    0 <= r < HEIGHT ==> {
                        &&& self.tiles[r] == if i <= r < hi {
                            old(self).tiles[r - distance]
                        } else {
                            old(self).tiles[r]
                        }
                        &&& self.colors[r] == if i <= r < hi {
                            old(self).colors[r - distance]
                        } else {
                            old(self).colors[r]
                        }
                    },
            decreases i,
        {
            i -= 1;
            self.tiles[i] = self.tiles[i - distance];
            self.colors[i] = self.colors[i - distance];
        }
        assert(cells(*self) =~= shift_rows(cells(*old(self)), lo as int, hi as int, distance as int));
        assert(cell_colors(*self) =~= shift_rows(
            cell_colors(*old(self)),
            lo as int,
            hi as int,
            distance as int,
        ));
    }
}

/// Fewer than `bound - r` increasing rows below `bound` lie below `r`.
pub proof fn lemma_count_below_bound(lines: Seq<usize>, r: int, bound: int)
    requires
        increasing(lines),
        forall|i: int| 0 <= i < lines.len() ==> #[trigger] lines[i] < bound,
    ensures
        0 <= count_below(lines, r),
        count_below(lines, r) <= if bound - r - 1 > 0 {
            bound - r - 1
        } else {
            0
        },
    decreases lines.len(),
{
    if lines.len() > 0 {
        let p = lines.drop_last();
        let x = lines.last();
        assert forall|i: int| 0 <= i < p.len() implies #[trigger] p[i] < x by {
            assert(lines[i] < lines[lines.len() - 1]);
        }
        lemma_count_below_bound(p, r, x as int);
    }
}

/// Clearing lines loses and repeats no other row: every row `r` from 1 on
/// that is not cleared ends up `r` plus the number of cleared lines below
/// it, with its content unchanged.  (Row 0 never moves.)
pub proof fn lemma_drop_rows_keeps_rows<V>(g: Seq<Seq<V>>, lines: Seq<usize>)
    requires
        g.len() == HEIGHT,
        increasing(lines),
        forall|i: int| 0 <= i < lines.len() ==> #[trigger] lines[i] < HEIGHT,
    ensures
        drop_rows(g, lines).len() == HEIGHT,
        drop_rows(g, lines)[0] == g[0],
        forall|r: int|
            #![trigger count_below(lines, r)]
            1 <= r < HEIGHT && !lines.contains(r as usize) ==> {
                &&& r + count_below(lines, r) < HEIGHT
                &&& drop_rows(g, lines)[r + count_below(lines, r)] == g[r]
            },
    decreases lines.len(),
{
    if lines.len() > 0 {
        let p = lines.drop_last();
        let l = lines.last();
        assert(increasing(p));
        assert forall|i: int| 0 <= i < p.len() implies #[trigger] p[i] < l by {
            assert(lines[i] < lines[lines.len() - 1]);
        }
        lemma_drop_rows_keeps_rows(g, p);
        let d = drop_rows(g, p);
        assert forall|r: int|
            #![trigger count_below(lines, r)]
            1 <= r < HEIGHT && !lines.contains(r as usize) implies {
                &&& r + count_below(lines, r) < HEIGHT
                &&& drop_rows(g, lines)[r + count_below(lines, r)] == g[r]
            } by {
            assert(!p.contains(r as usize)) by {
                if p.contains(r as usize) {
                    let k = choose|k: int| 0 <= k < p.len() && p[k] == r as usize;
                    assert(lines[k] == r as usize);
                }
            }
            assert(l != r as usize) by {
                assert(lines[lines.len() - 1] == l);
            }
            let c = count_below(p, r);
            assert(d[r + count_below(p, r)] == g[r]);
            lemma_count_below_bound(p, r, l as int);
            if l > r {
                assert(count_below(lines, r) == c + 1);
            } else {
                assert(count_below(lines, r) == c);
                assert(c == 0);
            }
        }
    }
}

/// `validate` answers `Good` exactly when every tile is `Good`: inside
/// the side walls, above the floor, and on an empty cell or above the
/// field.
pub proof fn lemma_placement_good(g: Seq<Seq<bool>>, t: Tetro)
    ensures
        placement(g, t) == Sts::Good <==> forall|i: int|
            0 <= i < 4 ==> tile_status(g, #[trigger] real_tile(t, i)) == Sts::Good,
{
    reveal_with_fuel(status_from, 5);
}

/// What `placement` answers, said of the piece's tiles and the board's
/// cells: `Good` exactly when every tile is inside the side walls, above
/// the floor, and on an empty cell or above the field; `Invalid` only when
/// some tile is outside a side wall; `Collision` only when some tile inside
/// the walls is below the floor or on an occupied cell.
pub proof fn lemma_placement_explicit(b: Board, t: Tetro)
    requires
        tiles_fit(t),
    ensures
        placement(cells(b), t) == Sts::Good <==> forall|i: int|
            #![trigger t.tiles[i]]
            0 <= i < 4 ==> {
                let x = t.tiles[i].0 + t.pos.0;
                let y = t.tiles[i].1 + t.pos.1;
                &&& 0 <= x < WIDTH
                &&& y < HEIGHT
                &&& y >= 0 ==> !b.tiles[y][x]
            },
        placement(cells(b), t) == Sts::Invalid ==> exists|i: int|
            #![trigger t.tiles[i]]
            0 <= i < 4 && (t.tiles[i].0 + t.pos.0 < 0 || t.tiles[i].0 + t.pos.0 >= WIDTH),
        placement(cells(b), t) == Sts::Collision ==> exists|i: int|
            #![trigger t.tiles[i]]
            0 <= i < 4 && {
                let x = t.tiles[i].0 + t.pos.0;
                let y = t.tiles[i].1 + t.pos.1;
                &&& 0 <= x < WIDTH
                &&& (y >= HEIGHT || (y >= 0 && b.tiles[y][x]))
            },
{
    b.lemma_shape();
    reveal_with_fuel(status_from, 5);
    assert forall|i: int| 0 <= i < 4 implies real_tile(t, i).0 == t.tiles[i].0 + t.pos.0
        && real_tile(t, i).1 == t.tiles[i].1 + t.pos.1 by {
        assert(crate::tetro::fits_i16(t.tiles[i].0 + t.pos.0));
        assert(crate::tetro::fits_i16(t.tiles[i].1 + t.pos.1));
    }
}

/// Filling more cells never turns a bad placement `Good`: a placement that
/// is `Good` on a field is `Good` on every field with fewer occupied cells.
pub proof fn lemma_placement_monotone(fewer: Seq<Seq<bool>>, more: Seq<Seq<bool>>, t: Tetro)
    requires
        field_shaped(fewer),
        field_shaped(more),
        forall|r: int, c: int|
            0 <= r < HEIGHT && 0 <= c < WIDTH && #[trigger] fewer[r][c] ==> more[r][c],
        placement(more, t) == Sts::Good,
    ensures
        placement(fewer, t) == Sts::Good,
{
    lemma_placement_good(more, t);
    lemma_placement_good(fewer, t);
    assert forall|i: int| 0 <= i < 4 implies tile_status(fewer, #[trigger] real_tile(t, i))
        == Sts::Good by {
        assert(tile_status(more, real_tile(t, i)) == Sts::Good);
    }
}

/// Once a piece that lies on the field is locked in as occupied, the same
/// placement collides.
pub proof fn lemma_locked_collides(g: Seq<Seq<bool>>, t: Tetro)
    requires
        field_shaped(g),
        on_field(t),
    ensures
        placement(lock_cells(g, t, true), t) == Sts::Collision,
{
    let p = real_tile(t, 0);
    assert(covers(t, p.1 as int, p.0 as int));
    assert(lock_cells(g, t, true)[p.1 as int][p.0 as int]);
    reveal_with_fuel(status_from, 2);
}

/// `check_lines` lists rows in increasing order, each of them full and in
/// `lo..hi`, and lists every full row of `lo..hi`.
pub proof fn lemma_full_rows(g: Seq<Seq<bool>>, lo: int, hi: int)
    requires
        0 <= lo,
        hi <= HEIGHT,
    ensures
        forall|k: int|
            0 <= k < full_rows(g, lo, hi).len() ==> {
                &&& lo <= #[trigger] full_rows(g, lo, hi)[k] < hi
                &&& row_full(g, full_rows(g, lo, hi)[k] as int)
            },
        forall|k1: int, k2: int|
            0 <= k1 < k2 < full_rows(g, lo, hi).len() ==> #[trigger] full_rows(g, lo, hi)[k1]
                < #[trigger] full_rows(g, lo, hi)[k2],
        forall|r: int| lo <= r < hi && row_full(g, r) ==> full_rows(g, lo, hi).contains(r as usize),
        full_rows(g, lo, hi).len() <= if hi > lo { hi - lo } else { 0 },
    decreases hi - lo,
{
    if hi > lo {
        lemma_full_rows(g, lo, hi - 1);
        let prev = full_rows(g, lo, hi - 1);
        if row_full(g, hi - 1) {
            assert(full_rows(g, lo, hi) == prev.push((hi - 1) as usize));
            assert(prev.push((hi - 1) as usize)[prev.len() as int] == (hi - 1) as usize);
            assert forall|r: int| lo <= r < hi && row_full(g, r) implies full_rows(
                g,
                lo,
                hi,
            ).contains(r as usize) by {
                if r < hi - 1 {
                    let k = choose|k: int| 0 <= k < prev.len() && prev[k] == r as usize;
                    assert(full_rows(g, lo, hi)[k] == r as usize);
                } else {
                    assert(full_rows(g, lo, hi)[prev.len() as int] == r as usize);
                }
            }
        }
    }
}

} // verus!
