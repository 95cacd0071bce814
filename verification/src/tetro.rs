use vstd::prelude::*;

verus! {

/// The larger of two bytes.
pub open spec fn max_u8(a: u8, b: u8) -> u8 {
    if a > b { a } else { b }
}

/// The largest column offset among four tiles (never below 0).
pub open spec fn max_x(tiles: [(u8, u8); 4]) -> u8 {
    max_u8(max_u8(max_u8(max_u8(0, tiles[0].0), tiles[1].0), tiles[2].0), tiles[3].0)
}

/// The largest row offset among four tiles (never below 0).
pub open spec fn max_y(tiles: [(u8, u8); 4]) -> u8 {
    max_u8(max_u8(max_u8(max_u8(0, tiles[0].1), tiles[1].1), tiles[2].1), tiles[3].1)
}

/// A piece of four tiles.  `tiles` are offsets from `pos`; `width` and
/// `height` are the largest column and row offsets; `color` picks the
/// piece's color.
#[derive(Clone, Copy)]
pub struct Tetro {
    pub tiles: [(u8, u8); 4],
    pub width: u8,
    pub height: u8,
    pub pos: (i16, i16),
    pub color: u8,
}

/// The piece that `Tetro::new` builds from its arguments.
pub open spec fn built(tiles: [(u8, u8); 4], pos: (i16, i16), color: u8) -> Tetro {
    Tetro { tiles, width: max_x(tiles), height: max_y(tiles), pos, color }
}

impl Tetro {
    /// `width` and `height` agree with the tiles.
    pub open spec fn wf(self) -> bool {
        self.width == max_x(self.tiles) && self.height == max_y(self.tiles)
    }

    pub fn new(tiles: [(u8, u8); 4], pos: (i16, i16), color: u8) -> (t: Tetro)
        ensures
            t == built(tiles, pos, color),
            t.tiles == tiles && t.pos == pos && t.color == color,
            forall|i: int| 0 <= i < 4 ==> tiles[i].0 <= t.width && tiles[i].1 <= t.height,
            t.width == 0 || exists|i: int| 0 <= i < 4 && tiles[i].0 == t.width,
            t.height == 0 || exists|i: int| 0 <= i < 4 && tiles[i].1 == t.height,
    {
        let mut width: u8 = 0;
        let mut height: u8 = 0;
        for i in 0..4
            invariant
                width == max_x_upto(tiles, i as int),
                height == max_y_upto(tiles, i as int),
        {
            let tile = tiles[i];
            if tile.0 > width {
                width = tile.0
            }
            if tile.1 > height {
                height = tile.1
            }
        }
        proof {
            reveal_with_fuel(max_x_upto, 5);
            reveal_with_fuel(max_y_upto, 5);
        }
        Tetro { tiles: tiles, width: width, height: height, pos: pos, color: color }
    }
}

/// The largest column offset among the first `n` tiles.
pub open spec fn max_x_upto(tiles: [(u8, u8); 4], n: int) -> u8
    decreases n,
{
    if n <= 0 { 0 } else { max_u8(max_x_upto(tiles, n - 1), tiles[n - 1].0) }
}

/// The largest row offset among the first `n` tiles.
pub open spec fn max_y_upto(tiles: [(u8, u8); 4], n: int) -> u8
    decreases n,
{
    if n <= 0 { 0 } else { max_u8(max_y_upto(tiles, n - 1), tiles[n - 1].1) }
}

/// The smaller of two bytes.
pub open spec fn min_u8(a: u8, b: u8) -> u8 {
    if a < b { a } else { b }
}

/// A piece whose tiles touch column 0 and row 0, as every standard piece
/// does and as rotation keeps.
pub open spec fn normalized(t: Tetro) -> bool {
    &&& min_u8(min_u8(min_u8(t.tiles[0].0, t.tiles[1].0), t.tiles[2].0), t.tiles[3].0) == 0
    &&& min_u8(min_u8(min_u8(t.tiles[0].1, t.tiles[1].1), t.tiles[2].1), t.tiles[3].1) == 0
}

/// A piece as the game handles it: consistent dimensions, touching
/// column 0 and row 0, and every tile offset at most 3.
pub open spec fn small(t: Tetro) -> bool {
    &&& t.wf()
    &&& normalized(t)
    &&& forall|i: int| 0 <= i < 4 ==> t.tiles[i].0 <= 3 && t.tiles[i].1 <= 3
}

/// A value that an `i16` holds.
pub open spec fn fits_i16(v: int) -> bool {
    i16::MIN <= v <= i16::MAX
}

/// Moving the piece by `v` keeps its position inside `i16`.
pub open spec fn can_move(t: Tetro, v: (i16, i16)) -> bool {
    fits_i16(t.pos.0 + v.0) && fits_i16(t.pos.1 + v.1)
}

/// The piece that `mv` returns: the same tiles and color at `pos + v`.
pub open spec fn moved(t: Tetro, v: (i16, i16)) -> Tetro {
    built(t.tiles, ((t.pos.0 + v.0) as i16, (t.pos.1 + v.1) as i16), t.color)
}

/// Tile `i` after a quarter turn as the field is drawn (columns grow to
/// the right, rows grow downward): clockwise `(x, y)` goes to
/// `(height - y, x)`, counter-clockwise to `(y, width - x)`.
pub open spec fn rot_tile(t: Tetro, i: int, cw: bool) -> (u8, u8) {
    if cw {
        ((t.height - t.tiles[i].1) as u8, t.tiles[i].0)
    } else {
        (t.tiles[i].1, (t.width - t.tiles[i].0) as u8)
    }
}

/// The quarter turn stays within bytes: no tile lies past `height`
/// (clockwise) or past `width` (counter-clockwise).
pub open spec fn can_rot(t: Tetro, cw: bool) -> bool {
    forall|i: int|
        0 <= i < 4 ==> if cw {
            t.tiles[i].1 <= t.height
        } else {
            t.tiles[i].0 <= t.width
        }
}

/// The tiles after a quarter turn.
pub open spec fn rot_tiles(t: Tetro, cw: bool) -> [(u8, u8); 4] {
    [rot_tile(t, 0, cw), rot_tile(t, 1, cw), rot_tile(t, 2, cw), rot_tile(t, 3, cw)]
}

/// The piece that `rot` returns.
pub open spec fn rotated(t: Tetro, cw: bool) -> Tetro {
    built(rot_tiles(t, cw), t.pos, t.color)
}

/// Where tile `i` of the piece lies on the field.
pub open spec fn real_tile(t: Tetro, i: int) -> (i16, i16) {
    ((t.tiles[i].0 + t.pos.0) as i16, (t.tiles[i].1 + t.pos.1) as i16)
}

/// Every tile of the piece lies at a position that `i16` holds.
pub open spec fn tiles_fit(t: Tetro) -> bool {
    forall|i: int|
        0 <= i < 4 ==> fits_i16(t.tiles[i].0 + t.pos.0) && fits_i16(t.tiles[i].1 + t.pos.1)
}

/// The seven standard pieces, each at `pos`.
pub open spec fn piece_i(pos: (i16, i16)) -> Tetro {
    built([(0, 0), (0, 1), (0, 2), (0, 3)], pos, 6)
}

pub open spec fn piece_j(pos: (i16, i16)) -> Tetro {
    built([(1, 0), (1, 1), (1, 2), (0, 2)], pos, 3)
}

pub open spec fn piece_l(pos: (i16, i16)) -> Tetro {
    built([(0, 0), (0, 1), (0, 2), (1, 2)], pos, 7)
}

pub open spec fn piece_o(pos: (i16, i16)) -> Tetro {
    built([(0, 0), (1, 0), (1, 1), (0, 1)], pos, 1)
}

pub open spec fn piece_s(pos: (i16, i16)) -> Tetro {
    built([(0, 1), (1, 1), (1, 0), (2, 0)], pos, 4)
}

pub open spec fn piece_z(pos: (i16, i16)) -> Tetro {
    built([(0, 0), (1, 0), (1, 1), (2, 1)], pos, 2)
}

pub open spec fn piece_t(pos: (i16, i16)) -> Tetro {
    built([(0, 1), (1, 0), (1, 1), (2, 1)], pos, 5)
}

#[allow(non_snake_case)]
impl Tetro {
    pub fn I(pos: (i16, i16)) -> (t: Tetro)
        ensures
            t == piece_i(pos),
    {
        Tetro::new([(0, 0), (0, 1), (0, 2), (0, 3)], pos, 6)
    }

    pub fn J(pos: (i16, i16)) -> (t: Tetro)
        ensures
            t == piece_j(pos),
    {
        Tetro::new([(1, 0), (1, 1), (1, 2), (0, 2)], pos, 3)
    }

    pub fn L(pos: (i16, i16)) -> (t: Tetro)
        ensures
            t == piece_l(pos),
    {
        Tetro::new([(0, 0), (0, 1), (0, 2), (1, 2)], pos, 7)
    }

    pub fn O(pos: (i16, i16)) -> (t: Tetro)
        ensures
            t == piece_o(pos),
    {
        Tetro::new([(0, 0), (1, 0), (1, 1), (0, 1)], pos, 1)
    }

    pub fn S(pos: (i16, i16)) -> (t: Tetro)
        ensures
            t == piece_s(pos),
    {
        Tetro::new([(0, 1), (1, 1), (1, 0), (2, 0)], pos, 4)
    }

    pub fn Z(pos: (i16, i16)) -> (t: Tetro)
        ensures
            t == piece_z(pos),
    {
        Tetro::new([(0, 0), (1, 0), (1, 1), (2, 1)], pos, 2)
    }

    pub fn T(pos: (i16, i16)) -> (t: Tetro)
        ensures
            t == piece_t(pos),
    {
        Tetro::new([(0, 1), (1, 0), (1, 1), (2, 1)], pos, 5)
    }

    /// A copy of the piece moved by `vec`; the piece itself stays put.
    pub fn mv(&mut self, vec: (i16, i16)) -> (t: Tetro)
        requires
            can_move(*old(self), vec),
        ensures
            *final(self) == *old(self),
            t == moved(*old(self), vec),
            t.tiles == old(self).tiles && t.color == old(self).color,
            t.pos.0 == old(self).pos.0 + vec.0 && t.pos.1 == old(self).pos.1 + vec.1,
    {
        let newpos = (self.pos.0 + vec.0, self.pos.1 + vec.1);
        Tetro::new(self.tiles, newpos, self.color)
    }

    /// A copy of the piece turned a quarter turn in place at the same
    /// position (clockwise on screen when `cw`, counter-clockwise
    /// otherwise); the piece itself stays put.
    pub fn rot(&mut self, cw: bool) -> (t: Tetro)
        requires
            can_rot(*old(self), cw),
        ensures
            *final(self) == *old(self),
            t == rotated(*old(self), cw),
            t.pos == old(self).pos && t.color == old(self).color,
            forall|i: int|
                0 <= i < 4 ==> #[trigger] t.tiles[i] == if cw {
                    ((old(self).height - old(self).tiles[i].1) as u8, old(self).tiles[i].0)
                } else {
                    (old(self).tiles[i].1, (old(self).width - old(self).tiles[i].0) as u8)
                },
    {
        let mut new_tiles: [(u8, u8); 4] = [(0, 0);4];
        for i in 0..4
            invariant
                can_rot(*self, cw),
                forall|j: int| 0 <= j < i ==> new_tiles[j] == rot_tile(*self, j, cw),
        {
            if cw {
                new_tiles[i] = (self.height - self.tiles[i].1, self.tiles[i].0);
            } else {
                new_tiles[i] = (self.tiles[i].1, self.width - self.tiles[i].0);
            }
        }
        assert(new_tiles =~= rot_tiles(*self, cw));
        Tetro::new(new_tiles, self.pos, self.color)
    }

    /// The field positions of the four tiles.
    pub fn real_tiles(&self) -> (r: [(i16, i16); 4])
        requires
            tiles_fit(*self),
        ensures
            forall|i: int| 0 <= i < 4 ==> r[i] == real_tile(*self, i),
            forall|i: int|
                #![trigger r[i]]
                0 <= i < 4 ==> r[i].0 == self.tiles[i].0 + self.pos.0 && r[i].1 == self.tiles[i].1
                    + self.pos.1,
    {
        let mut real_tiles: [(i16, i16); 4] = [(0, 0);4];
        for i in 0..4
            invariant
                tiles_fit(*self),
                forall|j: int| 0 <= j < i ==> real_tiles[j] == real_tile(*self, j),
        {
            real_tiles[i] = ((self.tiles[i].0 as i16) + self.pos.0, (self.tiles[i].1 as i16)
                + self.pos.1);
        }
        assert forall|i: int|
            #![trigger real_tiles[i]]
            0 <= i < 4 implies real_tiles[i].0 == self.tiles[i].0 + self.pos.0 && real_tiles[i].1
                == self.tiles[i].1 + self.pos.1 by {
            assert(fits_i16(self.tiles[i].0 + self.pos.0) && fits_i16(self.tiles[i].1 + self.pos.1));
            assert(real_tiles[i] == real_tile(*self, i));
        }
        return real_tiles;
    }
}

/// Every standard piece has consistent dimensions and touches column 0
/// and row 0.
pub proof fn lemma_standard_pieces(pos: (i16, i16))
    ensures
        piece_i(pos).wf() && normalized(piece_i(pos)),
        piece_j(pos).wf() && normalized(piece_j(pos)),
        piece_l(pos).wf() && normalized(piece_l(pos)),
        piece_o(pos).wf() && normalized(piece_o(pos)),
        piece_s(pos).wf() && normalized(piece_s(pos)),
        piece_z(pos).wf() && normalized(piece_z(pos)),
        piece_t(pos).wf() && normalized(piece_t(pos)),
{
}

/// A quarter turn of a normalized piece is again a normalized piece at the
/// same place with the same color, its width and height swapped, and it
/// can be turned either way.
pub proof fn lemma_rot_keeps_shape(t: Tetro, cw: bool)
    requires
        t.wf(),
        normalized(t),
    ensures
        can_rot(t, cw),
        rotated(t, cw).wf(),
        normalized(rotated(t, cw)),
        rotated(t, cw).width == t.height,
        rotated(t, cw).height == t.width,
        rotated(t, cw).pos == t.pos,
        rotated(t, cw).color == t.color,
        can_rot(rotated(t, cw), true),
        can_rot(rotated(t, cw), false),
{
}

/// Standard pieces are small; turning or moving a small piece gives a
/// small piece.
pub proof fn lemma_small(t: Tetro, cw: bool, v: (i16, i16), pos: (i16, i16))
    ensures
        small(piece_i(pos)) && small(piece_j(pos)) && small(piece_l(pos)) && small(piece_o(pos))
            && small(piece_s(pos)) && small(piece_z(pos)) && small(piece_t(pos)),
        small(t) ==> can_rot(t, cw) && small(rotated(t, cw)),
        small(t) ==> small(moved(t, v)),
{
    if small(t) {
        lemma_rot_keeps_shape(t, cw);
    }
}

/// Turning a normalized piece clockwise and then counter-clockwise gives
/// the piece back, and so does the other order.
pub proof fn lemma_rot_inverse(t: Tetro)
    requires
        t.wf(),
        normalized(t),
    ensures
        rotated(rotated(t, true), false) == t,
        rotated(rotated(t, false), true) == t,
{
    lemma_rot_keeps_shape(t, true);
    lemma_rot_keeps_shape(t, false);
    assert(rotated(rotated(t, true), false).tiles =~= t.tiles);
    assert(rotated(rotated(t, false), true).tiles =~= t.tiles);
}

/// Four clockwise quarter turns of a normalized piece give the piece back.
pub proof fn lemma_rot_four_turns(t: Tetro)
    requires
        t.wf(),
        normalized(t),
    ensures
        rotated(rotated(rotated(rotated(t, true), true), true), true) == t,
{
    let r1 = rotated(t, true);
    lemma_rot_keeps_shape(t, true);
    let r2 = rotated(r1, true);
    lemma_rot_keeps_shape(r1, true);
    let r3 = rotated(r2, true);
    lemma_rot_keeps_shape(r2, true);
    lemma_rot_keeps_shape(r3, true);
    assert(rotated(r3, true).tiles =~= t.tiles);
}

/// Moving a piece keeps its tiles, size and color, shifts every tile by
/// the move, and moving it back by the opposite vector gives it back.
pub proof fn lemma_move_back(t: Tetro, v: (i16, i16))
    requires
        t.wf(),
        can_move(t, v),
        fits_i16(-v.0),
        fits_i16(-v.1),
    ensures
        moved(t, v).tiles == t.tiles,
        moved(t, v).width == t.width,
        moved(t, v).height == t.height,
        moved(t, v).color == t.color,
        moved(t, v).pos == ((t.pos.0 + v.0) as i16, (t.pos.1 + v.1) as i16),
        can_move(moved(t, v), ((-v.0) as i16, (-v.1) as i16)),
        moved(moved(t, v), ((-v.0) as i16, (-v.1) as i16)) == t,
        tiles_fit(moved(t, v)) ==> forall|i: int|
            0 <= i < 4 ==> #[trigger] real_tile(moved(t, v), i).0 == t.tiles[i].0 + t.pos.0 + v.0
                && real_tile(moved(t, v), i).1 == t.tiles[i].1 + t.pos.1 + v.1,
{
}

/// Four counter-clockwise quarter turns of a normalized piece give the
/// piece back.
pub proof fn lemma_rot_four_turns_back(t: Tetro)
    requires
        t.wf(),
        normalized(t),
    ensures
        rotated(rotated(rotated(rotated(t, false), false), false), false) == t,
{
    let r1 = rotated(t, false);
    lemma_rot_keeps_shape(t, false);
    let r2 = rotated(r1, false);
    lemma_rot_keeps_shape(r1, false);
    let r3 = rotated(r2, false);
    lemma_rot_keeps_shape(r2, false);
    lemma_rot_keeps_shape(r3, false);
    assert(rotated(r3, false).tiles =~= t.tiles);
}

} // verus!
