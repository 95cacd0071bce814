use vstd::prelude::*;
use crate::board::{
    Board,
    Sts,
    HEIGHT,
    HIDDEN,
    WIDTH,
    cells,
    cell_colors,
    placement,
    on_field,
    lock_cells,
    full_rows,
    drop_rows,
    drop_row,
    shift_rows,
    count_below,
};
use crate::tetro::{
    Tetro,
    small,
    can_move,
    moved,
    rotated,
    tiles_fit,
    piece_i,
    piece_j,
    piece_l,
    piece_o,
    piece_s,
    piece_z,
    piece_t,
    lemma_small,
};
use crate::shuffle::shuffle_tetros;

verus! {

/// The level a game starts at.
pub const STARTING_LEVEL: u8 = 1;

/// Milliseconds between two steps of gravity, by level from 1 to 21.
pub const DOWN_TIMES: [u64; 21] = [
    1000,
    793,
    617,
    472,
    355,
    262,
    189,
    135,
    94,
    64,
    42,
    28,
    18,
    11,
    7,
    4,
    2,
    1,
    1,
    1,
    1,
];

/// Where new pieces appear.
pub open spec fn spawn_pos() -> (i16, i16) {
    (5, HIDDEN as i16)
}

/// The seven standard pieces at `pos`, in the order I, J, L, O, S, Z, T.
pub open spec fn standard_pieces(pos: (i16, i16)) -> Seq<Tetro> {
    seq![
        piece_i(pos),
        piece_j(pos),
        piece_l(pos),
        piece_o(pos),
        piece_s(pos),
        piece_z(pos),
        piece_t(pos),
    ]
}

/// The state of a game, apart from the clock and the screen.
pub struct Game {
    /// The piece rests on something and waits to be locked.
    pub locking: bool,
    pub level: u8,
    /// Milliseconds between two steps of gravity.
    pub down_time: u64,
    pub score: u32,
    pub xp: u16,
    /// The seven pieces, in the order of the current bag.
    pub tetros: [Tetro; 7],
    /// The pieces still to come from the current bag; the next is the last.
    pub bag: Vec<Tetro>,
    /// The falling piece.
    pub tetro: Tetro,
    pub held_tetro: Option<Tetro>,
    pub board: Board,
    /// A piece was held since the last piece was locked.
    pub holding: bool,
    pub paused: bool,
}

/// The piece placed at the spawn position, as it is.
pub open spec fn spawned(t: Tetro) -> Tetro {
    Tetro { tiles: t.tiles, width: t.width, height: t.height, pos: spawn_pos(), color: t.color }
}

/// The moves tried, in order, when a new piece collides where it spawns.
pub open spec fn spawn_offset(k: int) -> (i16, i16) {
    if k == 0 {
        (0i16, -1i16)
    } else if k == 1 {
        (1i16, 0i16)
    } else if k == 2 {
        (-1i16, 0i16)
    } else if k == 3 {
        (0i16, -2i16)
    } else if k == 4 {
        (-1i16, -1i16)
    } else if k == 5 {
        (1i16, -1i16)
    } else {
        (0i16, -3i16)
    }
}

/// The first of the moves `k..7` of `t` that does not collide.
pub open spec fn spawn_fallback(g: Seq<Seq<bool>>, t: Tetro, k: int) -> Option<Tetro>
    decreases 7 - k,
{
    if k >= 7 {
        None
    } else if placement(g, moved(t, spawn_offset(k))) != Sts::Collision {
        Some(moved(t, spawn_offset(k)))
    } else {
        spawn_fallback(g, t, k + 1)
    }
}

/// The falling piece after spawning `t` on grid `g` while `current` falls,
/// and whether the game is over.  The game is over when `t` collides at
/// the spawn position; the piece is then the first fallback move that
/// does not collide, if any.
pub open spec fn spawn_result(g: Seq<Seq<bool>>, t: Tetro, current: Tetro) -> (Tetro, bool) {
    let nt = spawned(t);
    if placement(g, nt) != Sts::Collision {
        (nt, false)
    } else {
        (
            match spawn_fallback(g, nt, 0) {
                Some(f) => f,
                None => current,
            },
            true,
        )
    }
}

/// The first of `cands[k..]` that is `Good` on `g`.
pub open spec fn first_good(g: Seq<Seq<bool>>, cands: Seq<Tetro>, k: int) -> Option<Tetro>
    decreases cands.len() - k,
{
    if k >= cands.len() {
        None
    } else if placement(g, cands[k]) == Sts::Good {
        Some(cands[k])
    } else {
        first_good(g, cands, k + 1)
    }
}

/// The placements a turn tries, in order: turned clockwise (on screen) in
/// place, then one down, one up, one right, one left.
pub open spec fn rot_candidates(t: Tetro) -> Seq<Tetro> {
    let r = rotated(t, true);
    seq![r, moved(r, (0i16, 1i16)), moved(r, (0i16, -1i16)), moved(r, (1i16, 0i16)), moved(r, (-1i16, 0i16))]
}

/// The candidate placements of a turn stay within `i16`.
pub open spec fn rot_room(t: Tetro) -> bool {
    let r = rotated(t, true);
    &&& can_move(r, (0i16, 1i16))
    &&& can_move(r, (0i16, -1i16))
    &&& can_move(r, (1i16, 0i16))
    &&& can_move(r, (-1i16, 0i16))
    &&& forall|k: int| 0 <= k < 5 ==> tiles_fit(#[trigger] rot_candidates(t)[k])
}

/// Experience and score for clearing `n` lines at `level`: 1, 3, 5 or 8
/// experience and 40, 100, 300 or 1200 points times the level for one to
/// four lines; nothing otherwise.
pub open spec fn line_reward(n: int, level: u8) -> (u16, u32) {
    if n == 1 {
        (1, (40 * level) as u32)
    } else if n == 2 {
        (3, (100 * level) as u32)
    } else if n == 3 {
        (5, (300 * level) as u32)
    } else if n == 4 {
        (8, (1200 * level) as u32)
    } else {
        (0, 0)
    }
}

/// The piece rests on something: one row down it collides.
pub open spec fn grounded(g: Seq<Seq<bool>>, t: Tetro) -> bool {
    placement(g, moved(t, (0i16, 1i16))) == Sts::Collision
}

/// The experience a level asks for.
pub open spec fn level_goal(level: u8) -> int {
    5 * level
}

/// The level and experience after gaining `gain` experience.
pub open spec fn leveled(level: u8, xp: u16, gain: u16) -> (u8, u16) {
    if xp + gain >= level_goal(level) {
        ((level + 1) as u8, (xp + gain - level_goal(level)) as u16)
    } else {
        (level, (xp + gain) as u16)
    }
}

/// The occupied cells once the falling piece is locked in.
pub open spec fn locked_cells(s: Game) -> Seq<Seq<bool>> {
    lock_cells(cells(s.board), s.tetro, true)
}

/// The lines that locking the falling piece completes: the full rows from
/// the piece's row down.
pub open spec fn next_lines(s: Game) -> Seq<usize> {
    full_rows(locked_cells(s), (s.tetro.pos.1 as usize) as int, HEIGHT as int)
}

/// Locking the falling piece is defined: the piece lies on the field, the
/// score stays within `u32`, and a level gained is at most level 21.
pub open spec fn can_lock(s: Game) -> bool {
    let reward = line_reward(next_lines(s).len() as int, s.level);
    &&& on_field(s.tetro)
    &&& s.score + reward.1 <= u32::MAX
    &&& s.xp + reward.0 >= level_goal(s.level) ==> s.level < 21
}

/// What taking the next piece does to the bag: it loses its last piece,
/// and when that empties it, the seven pieces are put in a new order and
/// all go into the bag.
pub open spec fn took_next(
    old_bag: Seq<Tetro>,
    old_tetros: Seq<Tetro>,
    bag: Seq<Tetro>,
    tetros: Seq<Tetro>,
) -> bool {
    if old_bag.len() > 1 {
        bag == old_bag.drop_last() && tetros == old_tetros
    } else {
        tetros.to_multiset() == old_tetros.to_multiset() && bag == tetros
    }
}

impl Game {
    /// The game's invariant: level 1 to 21 with its gravity time,
    /// experience below the level's goal, the seven standard pieces in
    /// `tetros` with the bag a nonempty prefix of them, and small falling
    /// and held pieces.
    pub open spec fn wf(self) -> bool {
        &&& 1 <= self.level <= 21
        &&& self.xp < level_goal(self.level)
        &&& self.down_time == DOWN_TIMES[self.level - 1]
        &&& self.tetros@.to_multiset() == standard_pieces(spawn_pos()).to_multiset()
        &&& 1 <= self.bag.len() <= 7
        &&& self.bag@ == self.tetros@.take(self.bag.len() as int)
        &&& small(self.tetro)
        &&& (self.held_tetro matches Some(h) ==> small(h))
    }
}

/// Fills the bag with the pieces of `tetros` after putting them in a
/// random order.
pub fn restock(bag: &mut Vec<Tetro>, tetros: &mut [Tetro])
    ensures
        final(tetros)@.to_multiset() == old(tetros)@.to_multiset(),
        final(bag)@ == final(tetros)@,
{
    shuffle_tetros(tetros);
    *bag = Vec::new();
    for i in 0..tetros.len()
        invariant
            bag@ == tetros@.take(i as int),
    {
        bag.push(tetros[i]);
        assert(tetros@.take(i + 1) =~= tetros@.take(i as int).push(tetros@[i as int]));
    }
    assert(tetros@.take(tetros@.len() as int) =~= tetros@);
}

impl Game {
    /// A new game: level 1, no score, an empty field, a freshly shuffled
    /// full bag, and a Z piece falling first.
    pub fn new() -> (g: Game)
        ensures
            g.wf(),
            g.level == STARTING_LEVEL,
            g.score == 0,
            g.xp == 0,
            !g.locking,
            !g.holding,
            !g.paused,
            g.held_tetro is None,
            g.tetro == piece_z(spawn_pos()),
            g.bag@ == g.tetros@,
            cells(g.board) == crate::board::filled(false),
            cell_colors(g.board) == crate::board::filled(0u8),
    {
        let paused = false;
        let locking = false;
        let level = STARTING_LEVEL;
        let down_time = DOWN_TIMES[(level - 1) as usize];
        let score: u32 = 0;
        let xp: u16 = 0;
        let holding = false;

        let sp = (5, HIDDEN as i16);
        let mut tetros = [
            Tetro::I(sp),
            Tetro::J(sp),
            Tetro::L(sp),
            Tetro::O(sp),
            Tetro::S(sp),
            Tetro::Z(sp),
            Tetro::T(sp),
        ];
        assert(tetros@ =~= standard_pieces(spawn_pos()));
        let mut bag = Vec::new();
        restock(&mut bag, &mut tetros);
        let tetro = Tetro::Z(sp);
        let board = Board::new();
        let held_tetro: Option<Tetro> = None;
        proof {
            lemma_small(tetro, true, (0, 0), sp);
            assert(tetros@.take(7) =~= tetros@);
        }
        Game {
            locking: locking,
            level: level,
            down_time: down_time,
            score: score,
            xp: xp,
            tetros: tetros,
            bag: bag,
            tetro: tetro,
            board: board,
            held_tetro: held_tetro,
            holding: holding,
            paused: paused,
        }
    }

    /// Takes the next piece from the bag, refilling the bag when it runs
    /// empty.
    pub fn new_tetro(&mut self) -> (t: Tetro)
        requires
            old(self).wf(),
        ensures
            final(self).wf(),
            t == old(self).bag@.last(),
            t == old(self).bag@[old(self).bag.len() - 1],
            final(self).bag.len() == if old(self).bag.len() > 1 {
                old(self).bag.len() - 1
            } else {
                7
            },
            old(self).bag.len() > 1 ==> forall|i: int|
                0 <= i < final(self).bag.len() ==> #[trigger] final(self).bag@[i] == old(self).bag@[i],
            small(t),
            took_next(old(self).bag@, old(self).tetros@, final(self).bag@, final(self).tetros@),
            final(self).tetro == old(self).tetro,
            final(self).held_tetro == old(self).held_tetro,
            final(self).board == old(self).board,
            final(self).level == old(self).level,
            final(self).score == old(self).score,
            final(self).xp == old(self).xp,
            final(self).down_time == old(self).down_time,
            final(self).locking == old(self).locking,
            final(self).holding == old(self).holding,
            final(self).paused == old(self).paused,
    {
        let tetro = self.bag[self.bag.len() - 1];
        self.bag.pop();
        proof {
            lemma_standard_bag(self.tetros@, old(self).bag.len() as int);
            assert(self.bag@ =~= self.tetros@.take(self.bag.len() as int));
        }
        if self.bag.len() == 0 {
            restock(&mut self.bag, &mut self.tetros)
        }
        proof {
            assert(self.tetros@.take(self.bag.len() as int) =~= self.bag@);
        }
        return tetro;
    }

    /// Puts `tetro` at the spawn position as the falling piece.  When it
    /// collides there the game is over (answer `true`); the falling piece
    /// then becomes the first of a few nearby placements that does not
    /// collide, if any.
    pub fn spawn_tetro(&mut self, tetro: &Tetro) -> (over: bool)
        ensures
            (final(self).tetro, over) == spawn_result(cells(old(self).board), *tetro, old(self).tetro),
            final(self).tetros == old(self).tetros,
            final(self).bag == old(self).bag,
            final(self).held_tetro == old(self).held_tetro,
            final(self).board == old(self).board,
            final(self).level == old(self).level,
            final(self).score == old(self).score,
            final(self).xp == old(self).xp,
            final(self).down_time == old(self).down_time,
            final(self).locking == old(self).locking,
            final(self).holding == old(self).holding,
            final(self).paused == old(self).paused,
            small(*tetro) && small(old(self).tetro) ==> small(final(self).tetro),
            small(*tetro) && old(self).wf() ==> final(self).wf(),
            ({
                let g = cells(old(self).board);
                let nt = Tetro {
                    tiles: tetro.tiles,
                    width: tetro.width,
                    height: tetro.height,
                    pos: (5i16, 2i16),
                    color: tetro.color,
                };
                let free = |v: (i16, i16)| placement(g, moved(nt, v)) != Sts::Collision;
                &&& over == (placement(g, nt) == Sts::Collision)
                &&& !over ==> final(self).tetro == nt
                &&& over ==> final(self).tetro == if free((0i16, -1i16)) {
                    moved(nt, (0i16, -1i16))
                } else if free((1i16, 0i16)) {
                    moved(nt, (1i16, 0i16))
                } else if free((-1i16, 0i16)) {
                    moved(nt, (-1i16, 0i16))
                } else if free((0i16, -2i16)) {
                    moved(nt, (0i16, -2i16))
                } else if free((-1i16, -1i16)) {
                    moved(nt, (-1i16, -1i16))
                } else if free((1i16, -1i16)) {
                    moved(nt, (1i16, -1i16))
                } else if free((0i16, -3i16)) {
                    moved(nt, (0i16, -3i16))
                } else {
                    old(self).tetro
                }
            }),
    {
        proof {
            reveal_with_fuel(spawn_fallback, 8);
        }
        let mut new_tetro = *tetro;
        new_tetro.pos = (5, HIDDEN as i16);
        assert(new_tetro == spawned(*tetro));
        if self.board.validate(&new_tetro) == Sts::Collision {
            let moves = [
                new_tetro.mv((0, -1)),
                new_tetro.mv((1, 0)),
                new_tetro.mv((-1, 0)),
                new_tetro.mv((0, -2)),
                new_tetro.mv((-1, -1)),
                new_tetro.mv((1, -1)),
                new_tetro.mv((0, -3)),
            ];
            let ghost g = cells(self.board);
            for k in 0..7
                invariant_except_break
                    self.tetro == old(self).tetro,
                    spawn_fallback(g, new_tetro, 0) == spawn_fallback(g, new_tetro, k as int),
                invariant
                    forall|j: int| 0 <= j < 7 ==> #[trigger] moves[j] == moved(new_tetro, spawn_offset(j)),
                    new_tetro == spawned(*tetro),
                    g == cells(self.board),
                    *self == (Game { tetro: self.tetro, ..*old(self) }),
                ensures
                    self.tetro == match spawn_fallback(g, new_tetro, 0) {
                        Some(f) => f,
                        None => old(self).tetro,
                    },
            {
                let mv = moves[k];
                if self.board.validate(&mv) != Sts::Collision {
                    self.tetro = mv;
                    break;
                }
            }
            proof {
                if small(*tetro) {
                    lemma_small(*tetro, true, (0, 0), spawn_pos());
                    lemma_fallback_small(g, new_tetro, 0);
                }
            }
            return true;
        } else {
            proof {
                lemma_small(*tetro, true, (0, 0), spawn_pos());
            }
            self.tetro = new_tetro;
        }
        false
    }

    /// Moves the falling piece by `vec` when the moved placement is
    /// `Good`; answers whether it moved.  After a move the piece counts
    /// as resting (`locking`) exactly when the place below it collides.
    pub fn mv_current(&mut self, vec: (i16, i16)) -> (ok: bool)
        requires
            can_move(old(self).tetro, vec),
            tiles_fit(moved(old(self).tetro, vec)),
        ensures
            ok == (placement(cells(old(self).board), moved(old(self).tetro, vec)) == Sts::Good),
            final(self).tetro == if ok {
                moved(old(self).tetro, vec)
            } else {
                old(self).tetro
            },
            final(self).locking == if ok {
                grounded(cells(old(self).board), final(self).tetro)
            } else {
                old(self).locking
            },
            *final(self) == (Game {
                tetro: final(self).tetro,
                locking: final(self).locking,
                ..*old(self)
            }),
            ok ==> placement(cells(final(self).board), final(self).tetro) == Sts::Good,
            placement(cells(old(self).board), old(self).tetro) == Sts::Good ==> placement(
                cells(final(self).board),
                final(self).tetro,
            ) == Sts::Good,
            small(old(self).tetro) ==> small(final(self).tetro),
            old(self).wf() ==> final(self).wf(),
    {
        let mut mv = self.tetro.mv(vec);
        let sts = self.board.validate(&mv);
        proof {
            lemma_small(old(self).tetro, true, vec, spawn_pos());
        }
        if sts == Sts::Good {
            proof {
                lemma_good_has_room(cells(self.board), mv);
            }
            let below = mv.mv((0, 1));
            self.locking = self.board.validate(&below) == Sts::Collision;
            self.tetro = mv;
            return true;
        }
        false
    }

    /// Turns the falling piece a quarter turn clockwise on screen, trying
    /// in place, then one down, one up, one right and one left, and keeping
    /// the first placement that is `Good`; answers whether it turned.
    /// After a turn the piece counts as resting (`locking`) exactly when
    /// the place below it collides.  The direction argument is not
    /// consulted: every turn is clockwise.
    #[allow(unused_variables)]
    pub fn rot_current(&mut self, cw: bool) -> (ok: bool)
        requires
            small(old(self).tetro),
            rot_room(old(self).tetro),
        ensures
            ok == first_good(cells(old(self).board), rot_candidates(old(self).tetro), 0) is Some,
            final(self).tetro == match first_good(
                cells(old(self).board),
                rot_candidates(old(self).tetro),
                0,
            ) {
                Some(t) => t,
                None => old(self).tetro,
            },
            final(self).locking == if ok {
                grounded(cells(old(self).board), final(self).tetro)
            } else {
                old(self).locking
            },
            *final(self) == (Game {
                tetro: final(self).tetro,
                locking: final(self).locking,
                ..*old(self)
            }),
            ok ==> placement(cells(final(self).board), final(self).tetro) == Sts::Good,
            ({
                let g = cells(old(self).board);
                let turned = rotated(old(self).tetro, true);
                let down = moved(turned, (0i16, 1i16));
                let up = moved(turned, (0i16, -1i16));
                let right = moved(turned, (1i16, 0i16));
                let left = moved(turned, (-1i16, 0i16));
                &&& ok == (placement(g, turned) == Sts::Good || placement(g, down) == Sts::Good
                    || placement(g, up) == Sts::Good || placement(g, right) == Sts::Good
                    || placement(g, left) == Sts::Good)
                &&& final(self).tetro == if placement(g, turned) == Sts::Good {
                    turned
                } else if placement(g, down) == Sts::Good {
                    down
                } else if placement(g, up) == Sts::Good {
                    up
                } else if placement(g, right) == Sts::Good {
                    right
                } else if placement(g, left) == Sts::Good {
                    left
                } else {
                    old(self).tetro
                }
            }),
            small(final(self).tetro),
            old(self).wf() ==> final(self).wf(),
    {
        proof {
            reveal_with_fuel(first_good, 6);
        }
        let ghost cands = rot_candidates(self.tetro);
        let ghost g = cells(self.board);
        proof {
            let r = rotated(old(self).tetro, true);
            lemma_small(old(self).tetro, true, (0, 0), spawn_pos());
            lemma_small(r, true, (0, 1), spawn_pos());
            lemma_small(r, true, (0, -1i16), spawn_pos());
            lemma_small(r, true, (1, 0), spawn_pos());
            lemma_small(r, true, (-1i16, 0), spawn_pos());
            lemma_first_good_small(g, cands, 0);
        }
        let mut rot = self.tetro.rot(true);
        let candidates = [rot, rot.mv((0, 1)), rot.mv((0, -1)), rot.mv((1, 0)), rot.mv((-1, 0))];
        assert(candidates@ =~= cands);
        let mut ok = false;
        for k in 0..5
            invariant_except_break
                self.tetro == old(self).tetro,
                !ok,
                first_good(g, cands, 0) == first_good(g, cands, k as int),
            invariant
                candidates@ == cands,
                cands == rot_candidates(old(self).tetro),
                rot_room(old(self).tetro),
                g == cells(self.board),
                *self == (Game { tetro: self.tetro, ..*old(self) }),
            ensures
                ok == first_good(g, cands, 0) is Some,
                self.tetro == match first_good(g, cands, 0) {
                    Some(t) => t,
                    None => old(self).tetro,
                },
                ok ==> placement(g, self.tetro) == Sts::Good && tiles_fit(self.tetro),
        {
            let mv = candidates[k];
            assert(tiles_fit(cands[k as int]));
            if self.board.validate(&mv) == Sts::Good {
                self.tetro = mv;
                ok = true;
                break;
            }
        }
        if ok {
            proof {
                lemma_good_has_room(g, self.tetro);
            }
            let below = self.tetro.mv((0, 1));
            self.locking = self.board.validate(&below) == Sts::Collision;
        }
        ok
    }

    /// Holds the falling piece, once between two locks: the held piece (or,
    /// when none is held yet, the next piece from the bag) spawns as the
    /// falling piece, which no longer rests, and the falling piece becomes
    /// the held one.  Answers whether it held, and whether the game is over
    /// because the spawned piece collides.
    pub fn hold(&mut self) -> (r: (bool, bool))
        requires
            old(self).wf(),
        ensures
            final(self).wf(),
            r.0 == !old(self).holding,
            !r.0 ==> *final(self) == *old(self),
            r.0 ==> {
                let taken = old(self).held_tetro is None;
                let incoming = match old(self).held_tetro {
                    Some(h) => h,
                    None => old(self).bag@.last(),
                };
                &&& (final(self).tetro, r.1) == spawn_result(
                    cells(old(self).board),
                    incoming,
                    old(self).tetro,
                )
                &&& final(self).held_tetro == Some(old(self).tetro)
                &&& final(self).holding
                &&& taken ==> took_next(
                    old(self).bag@,
                    old(self).tetros@,
                    final(self).bag@,
                    final(self).tetros@,
                )
                &&& !taken ==> final(self).bag == old(self).bag && final(self).tetros
                    == old(self).tetros
                &&& final(self).board == old(self).board
                &&& final(self).level == old(self).level
                &&& final(self).score == old(self).score
                &&& final(self).xp == old(self).xp
                &&& final(self).down_time == old(self).down_time
                &&& !final(self).locking
                &&& final(self).paused == old(self).paused
            },
            !r.0 ==> !r.1,
    {
        if self.holding == false {
            match self.held_tetro {
                None => {
                    self.held_tetro = Some(self.new_tetro());
                },
                _ => {},
            }
            let tmp = self.tetro;
            let held = self.held_tetro.unwrap();
            let over = self.spawn_tetro(&held);
            self.held_tetro = Some(tmp);
            self.holding = true;
            self.locking = false;
            return (true, over);
        }
        (false, false)
    }

    /// One step of gravity: moves the falling piece down when it can, then
    /// marks it as resting (`locking`) exactly when the place below it
    /// collides.  Answers whether it moved, and whether the game is over
    /// because a resting piece sits at row 1 or above.
    pub fn update(&mut self) -> (r: (bool, bool))
        requires
            can_move(old(self).tetro, (0, 1)),
            tiles_fit(moved(old(self).tetro, (0, 1))),
        ensures
            r.0 == (placement(cells(old(self).board), moved(old(self).tetro, (0, 1))) == Sts::Good),
            final(self).tetro == if r.0 {
                moved(old(self).tetro, (0, 1))
            } else {
                old(self).tetro
            },
            final(self).locking == grounded(cells(old(self).board), final(self).tetro),
            r.1 == (final(self).locking && final(self).tetro.pos.1 <= 1),
            *final(self) == (Game {
                tetro: final(self).tetro,
                locking: final(self).locking,
                ..*old(self)
            }),
            placement(cells(old(self).board), old(self).tetro) == Sts::Good ==> placement(
                cells(final(self).board),
                final(self).tetro,
            ) == Sts::Good,
            small(old(self).tetro) ==> small(final(self).tetro),
            old(self).wf() ==> final(self).wf(),
    {
        let moved_down = self.mv_current((0, 1));
        proof {
            if moved_down {
                lemma_good_has_room(cells(self.board), self.tetro);
            }
        }
        let mv = self.tetro.mv((0, 1));
        let sts = self.board.validate(&mv);
        let mut over = false;
        self.locking = sts == Sts::Collision;
        if self.locking {
            if self.tetro.pos.1 <= 1 {
                over = true;
            }
        }
        (moved_down, over)
    }

    /// Leaves the pause.
    pub fn resume(&mut self)
        ensures
            *final(self) == (Game { paused: false, ..*old(self) }),
    {
        self.paused = false;
    }

    /// Locks the falling piece into the field, clears the lines it
    /// completes (each in turn, from the top one down, moving the rows
    /// above it down one), adds experience and score for them, goes up a
    /// level when the experience reaches five times the level, and spawns
    /// the next piece from the bag.  Answers the cleared lines and whether
    /// the game is over because the new piece collides.
    pub fn next(&mut self) -> (r: (Vec<usize>, bool))
        requires
            old(self).wf(),
            can_lock(*old(self)),
        ensures
            final(self).wf(),
            r.0@ == next_lines(*old(self)),
            cells(final(self).board) == drop_rows(locked_cells(*old(self)), r.0@),
            cell_colors(final(self).board) == drop_rows(
                lock_cells(cell_colors(old(self).board), old(self).tetro, old(self).tetro.color),
                r.0@,
            ),
            (final(self).level, final(self).xp) == if r.0@.len() > 0 {
                leveled(old(self).level, old(self).xp, line_reward(r.0@.len() as int, old(self).level).0)
            } else {
                (old(self).level, old(self).xp)
            },
            final(self).score == old(self).score + line_reward(r.0@.len() as int, old(self).level).1,
            took_next(old(self).bag@, old(self).tetros@, final(self).bag@, final(self).tetros@),
            (final(self).tetro, r.1) == spawn_result(
                cells(final(self).board),
                old(self).bag@.last(),
                old(self).tetro,
            ),
            final(self).score >= old(self).score,
            final(self).level >= old(self).level,
            final(self).level <= old(self).level + 1,
            forall|row: int|
                #![trigger count_below(r.0@, row)]
                1 <= row < HEIGHT && !r.0@.contains(row as usize) ==> {
                    &&& row + count_below(r.0@, row) < HEIGHT
                    &&& cells(final(self).board)[row + count_below(r.0@, row)] == locked_cells(
                        *old(self),
                    )[row]
                    &&& cell_colors(final(self).board)[row + count_below(r.0@, row)] == lock_cells(
                        cell_colors(old(self).board),
                        old(self).tetro,
                        old(self).tetro.color,
                    )[row]
                },
            ({
                let n = r.0@.len();
                let points: int = if n == 1 {
                    40
                } else if n == 2 {
                    100
                } else if n == 3 {
                    300
                } else if n == 4 {
                    1200
                } else {
                    0
                };
                let gain: int = if n == 1 {
                    1
                } else if n == 2 {
                    3
                } else if n == 3 {
                    5
                } else if n == 4 {
                    8
                } else {
                    0
                };
                &&& final(self).score == old(self).score + points * old(self).level
                &&& (final(self).level == old(self).level + 1) == (old(self).xp + gain >= 5
                    * old(self).level)
                &&& final(self).xp + 5 * old(self).level * (final(self).level - old(self).level)
                    == old(self).xp + gain
            }),
            !final(self).locking,
            !final(self).holding,
            final(self).held_tetro == old(self).held_tetro,
            final(self).paused == old(self).paused,
    {
        self.locking = false;
        self.holding = false;
        let t = self.tetro;
        self.board.lock_tetro(&t, true);

        let tris = self.board.check_lines(self.tetro.pos.1 as usize);
        let ghost locked = cells(self.board);
        let ghost locked_colors = cell_colors(self.board);
        proof {
            crate::board::lemma_full_rows(locked, (t.pos.1 as usize) as int, HEIGHT as int);
        }
        if tris.len() > 0 {
            for k in 0..tris.len()
                invariant
                    tris@ == full_rows(locked, (t.pos.1 as usize) as int, HEIGHT as int),
                    forall|j: int| 0 <= j < tris@.len() ==> #[trigger] tris@[j] < HEIGHT,
                    cells(self.board) == drop_rows(locked, tris@.take(k as int)),
                    cell_colors(self.board) == drop_rows(locked_colors, tris@.take(k as int)),
                    *self == (Game {
                        board: self.board,
                        locking: false,
                        holding: false,
                        ..*old(self)
                    }),
            {
                let line = tris[k];
                self.board.gravitate((0, line), 1);
                proof {
                    assert(tris@.take(k + 1).drop_last() =~= tris@.take(k as int));
                    assert(tris@.take(k + 1).last() == line);
                    assert(shift_rows(drop_rows(locked, tris@.take(k as int)), 1, line + 1, 1)
                        == drop_row(drop_rows(locked, tris@.take(k as int)), line as int));
                    assert(shift_rows(drop_rows(locked_colors, tris@.take(k as int)), 1, line + 1, 1)
                        == drop_row(drop_rows(locked_colors, tris@.take(k as int)), line as int));
                }
            }
            assert(tris@.take(tris@.len() as int) =~= tris@);

            let inc = reward(tris.len(), self.level);
            self.xp += inc.0;
            self.score += inc.1;
            let goal: u16 = 5 * (self.level as u16);

            if self.xp >= goal {
                self.level += 1;
                self.xp -= goal;
                self.down_time = DOWN_TIMES[(self.level - 1) as usize];
            }
        }
        proof {
            self.board.lemma_shape();
            lemma_line_reward_values(tris@.len() as int, old(self).level);
            let cg = lock_cells(cell_colors(old(self).board), old(self).tetro, old(self).tetro.color);
            old(self).board.lemma_shape();
            crate::board::lemma_drop_rows_keeps_rows(locked, tris@);
            crate::board::lemma_drop_rows_keeps_rows(cg, tris@);
        }
        let new_tetro = self.new_tetro();
        let over = self.spawn_tetro(&new_tetro);
        (tris, over)
    }

    /// Whether `next` is defined on this state: the falling piece lies on
    /// the field, and the lines it completes neither push the score past
    /// `u32` nor the level past 21.
    pub fn can_lock(&self) -> (b: bool)
        requires
            self.wf(),
        ensures
            b == can_lock(*self),
    {
        let t = self.tetro;
        for i in 0..4
            invariant
                t == self.tetro,
                small(t),
                forall|j: int|
                    0 <= j < i ==> {
                        &&& 0 <= #[trigger] t.tiles[j].0 + t.pos.0 < WIDTH
                        &&& 0 <= t.tiles[j].1 + t.pos.1 < HEIGHT
                    },
        {
            let x = t.tiles[i].0 as i32 + t.pos.0 as i32;
            let y = t.tiles[i].1 as i32 + t.pos.1 as i32;
            if x < 0 || x >= WIDTH as i32 || y < 0 || y >= HEIGHT as i32 {
                assert(!on_field(t)) by {
                    if on_field(t) {
                        assert(0 <= crate::tetro::real_tile(t, i as int).0 < WIDTH);
                    }
                }
                return false;
            }
        }
        assert(on_field(t)) by {
            assert forall|i: int| 0 <= i < 4 implies crate::tetro::fits_i16(t.tiles[i].0 + t.pos.0)
                && crate::tetro::fits_i16(t.tiles[i].1 + t.pos.1) by {}
        }
        let mut b = self.board;
        b.lock_tetro(&t, true);
        let lines = b.check_lines(t.pos.1 as usize);
        proof {
            crate::board::lemma_full_rows(cells(b), (t.pos.1 as usize) as int, HEIGHT as int);
        }
        let inc = reward(lines.len(), self.level);
        if self.score as u64 + inc.1 as u64 > u32::MAX as u64 {
            return false;
        }
        if self.xp + inc.0 >= 5 * (self.level as u16) && self.level >= 21 {
            return false;
        }
        true
    }

    /// Pauses the game.
    pub fn pause(&mut self)
        ensures
            *final(self) == (Game { paused: true, ..*old(self) }),
    {
        self.paused = true;
    }
}

/// Experience and score for clearing `n` lines at `level`.
fn reward(n: usize, level: u8) -> (inc: (u16, u32))
    requires
        level <= 21,
    ensures
        inc == line_reward(n as int, level),
{
    let l32 = level as u32;
    match n {
        1 => { (1, 40 * l32) },
        2 => { (3, 100 * l32) },
        3 => { (5, 300 * l32) },
        4 => { (8, 1200 * l32) },
        _ => { (0, 0) },
    }
}

/// A move that succeeded from a `Good` placement can be undone: moving
/// back by the opposite vector gives the earlier piece, which is `Good`.
pub proof fn lemma_move_undo(g: Seq<Seq<bool>>, t: Tetro, v: (i16, i16))
    requires
        t.wf(),
        can_move(t, v),
        crate::tetro::fits_i16(-v.0),
        crate::tetro::fits_i16(-v.1),
        placement(g, t) == Sts::Good,
    ensures
        can_move(moved(t, v), ((-v.0) as i16, (-v.1) as i16)),
        moved(moved(t, v), ((-v.0) as i16, (-v.1) as i16)) == t,
        placement(g, moved(moved(t, v), ((-v.0) as i16, (-v.1) as i16))) == Sts::Good,
{
    crate::tetro::lemma_move_back(t, v);
}

/// A `Good` piece lies inside the side walls and above the floor, so it
/// can be moved one row down within `i16`.
pub proof fn lemma_good_has_room(g: Seq<Seq<bool>>, t: Tetro)
    requires
        tiles_fit(t),
        placement(g, t) == Sts::Good,
    ensures
        can_move(t, (0i16, 1i16)),
        tiles_fit(moved(t, (0i16, 1i16))),
{
    crate::board::lemma_placement_good(g, t);
    assert(crate::board::tile_status(g, crate::tetro::real_tile(t, 0)) == Sts::Good);
    assert forall|i: int| 0 <= i < 4 implies t.tiles[i].1 + t.pos.1 < HEIGHT by {
        assert(crate::board::tile_status(g, crate::tetro::real_tile(t, i)) == Sts::Good);
    }
}

/// Clearing one to four lines is worth 40, 100, 300 or 1200 points times
/// the level and 1, 3, 5 or 8 experience; any other count is worth
/// nothing.
pub proof fn lemma_line_reward_values(n: int, level: u8)
    requires
        level <= 21,
    ensures
        n == 1 ==> line_reward(n, level) == (1u16, (40 * level) as u32) && 40 * level <= u32::MAX,
        n == 2 ==> line_reward(n, level) == (3u16, (100 * level) as u32),
        n == 3 ==> line_reward(n, level) == (5u16, (300 * level) as u32),
        n == 4 ==> line_reward(n, level) == (8u16, (1200 * level) as u32),
        n < 1 || n > 4 ==> line_reward(n, level) == (0u16, 0u32),
        line_reward(n, level).1 as int == (if n == 1 {
            40int
        } else if n == 2 {
            100
        } else if n == 3 {
            300
        } else if n == 4 {
            1200
        } else {
            0
        }) * level,
        line_reward(n, level).0 as int == if n == 1 {
            1int
        } else if n == 2 {
            3
        } else if n == 3 {
            5
        } else if n == 4 {
            8
        } else {
            0
        },
{
}

/// The first `Good` candidate of small candidates is small.
pub proof fn lemma_first_good_small(g: Seq<Seq<bool>>, cands: Seq<Tetro>, k: int)
    requires
        0 <= k,
        forall|j: int| 0 <= j < cands.len() ==> small(#[trigger] cands[j]),
    ensures
        first_good(g, cands, k) matches Some(t) ==> small(t),
    decreases cands.len() - k,
{
    if k < cands.len() {
        lemma_first_good_small(g, cands, k + 1);
    }
}

/// The fallback placement of a small piece is small.
pub proof fn lemma_fallback_small(g: Seq<Seq<bool>>, t: Tetro, k: int)
    requires
        small(t),
    ensures
        spawn_fallback(g, t, k) matches Some(f) ==> small(f),
    decreases 7 - k,
{
    if k < 7 {
        lemma_small(t, true, spawn_offset(k), spawn_pos());
        lemma_fallback_small(g, t, k + 1);
    }
}

/// The random bag: in every game state the pieces still in the bag are
/// standard pieces at the spawn position, none of them twice, and a full
/// bag holds each of the seven exactly once.
pub proof fn lemma_bag(s: Game)
    requires
        s.wf(),
    ensures
        s.bag@.len() >= 1,
        s.bag@.no_duplicates(),
        forall|i: int| 0 <= i < s.bag@.len() ==> standard_pieces(spawn_pos()).contains(#[trigger] s.bag@[i]),
        s.bag@.len() == 7 ==> s.bag@.to_multiset() == standard_pieces(spawn_pos()).to_multiset(),
{
    lemma_standard_bag(s.tetros@, s.bag@.len() as int);
    assert forall|i: int| 0 <= i < s.bag@.len() implies standard_pieces(spawn_pos()).contains(#[trigger] s.bag@[i]) by {
        assert(s.bag@[i] == s.tetros@[i]);
    }
    if s.bag@.len() == 7 {
        assert(s.tetros@.take(7) =~= s.tetros@);
    }
}

/// A sequence with the multiset of the standard pieces holds only standard
/// pieces, none twice; so does every prefix of it.
pub proof fn lemma_standard_bag(tetros: Seq<Tetro>, n: int)
    requires
        tetros.to_multiset() == standard_pieces(spawn_pos()).to_multiset(),
        0 <= n <= tetros.len(),
    ensures
        tetros.len() == 7,
        tetros.no_duplicates(),
        tetros.take(n).no_duplicates(),
        forall|i: int| 0 <= i < tetros.len() ==> standard_pieces(spawn_pos()).contains(#[trigger] tetros[i]),
        forall|i: int| 0 <= i < tetros.len() ==> small(#[trigger] tetros[i]),
{
    let st = standard_pieces(spawn_pos());
    lemma_small(tetros[0], true, (0, 0), spawn_pos());
    assert(st.no_duplicates()) by {
        assert(forall|i: int, j: int| 0 <= i < 7 && 0 <= j < 7 && i != j ==> st[i].color != st[j].color);
    }
    st.lemma_multiset_has_no_duplicates();
    tetros.lemma_multiset_has_no_duplicates_conv();
    vstd::seq_lib::to_multiset_len(tetros);
    vstd::seq_lib::to_multiset_len(st);
    assert forall|i: int| 0 <= i < tetros.len() implies st.contains(#[trigger] tetros[i]) by {
        vstd::seq_lib::to_multiset_contains(tetros, tetros[i]);
        vstd::seq_lib::to_multiset_contains(st, tetros[i]);
        assert(tetros.contains(tetros[i]));
    }
    assert forall|i: int| 0 <= i < tetros.len() implies small(#[trigger] tetros[i]) by {
        assert(st.contains(tetros[i]));
        let k = choose|k: int| 0 <= k < 7 && st[k] == tetros[i];
        lemma_small(tetros[i], true, (0, 0), spawn_pos());
    }
}

} // verus!
