use tetris::tetro::Tetro;

fn same(a: &Tetro, b: &Tetro) -> bool {
    a.tiles == b.tiles && a.width == b.width && a.height == b.height && a.pos == b.pos
        && a.color == b.color
}

fn all_pieces(pos: (i16, i16)) -> Vec<Tetro> {
    vec![
        Tetro::I(pos),
        Tetro::J(pos),
        Tetro::L(pos),
        Tetro::O(pos),
        Tetro::S(pos),
        Tetro::Z(pos),
        Tetro::T(pos),
    ]
}

#[test]
fn new_measures_the_tiles() {
    let t = Tetro::new([(0, 0), (2, 1), (1, 3), (0, 1)], (4, -2), 9);
    assert_eq!(t.width, 2);
    assert_eq!(t.height, 3);
    assert_eq!(t.pos, (4, -2));
    assert_eq!(t.color, 9);
    assert_eq!(t.tiles, [(0, 0), (2, 1), (1, 3), (0, 1)]);
}

#[test]
fn standard_pieces_have_their_shapes_and_colors() {
    let p = (5, 2);
    let i = Tetro::I(p);
    assert_eq!(i.tiles, [(0, 0), (0, 1), (0, 2), (0, 3)]);
    assert_eq!((i.width, i.height, i.color), (0, 3, 6));
    let j = Tetro::J(p);
    assert_eq!((j.width, j.height, j.color), (1, 2, 3));
    let l = Tetro::L(p);
    assert_eq!((l.width, l.height, l.color), (1, 2, 7));
    let o = Tetro::O(p);
    assert_eq!((o.width, o.height, o.color), (1, 1, 1));
    let s = Tetro::S(p);
    assert_eq!((s.width, s.height, s.color), (2, 1, 4));
    let z = Tetro::Z(p);
    assert_eq!(z.tiles, [(0, 0), (1, 0), (1, 1), (2, 1)]);
    assert_eq!((z.width, z.height, z.color), (2, 1, 2));
    let t = Tetro::T(p);
    assert_eq!((t.width, t.height, t.color), (2, 1, 5));
}

#[test]
fn mv_returns_a_moved_copy() {
    let mut t = Tetro::T((5, 2));
    let m = t.mv((-1, 3));
    assert_eq!(m.pos, (4, 5));
    assert_eq!(m.tiles, t.tiles);
    assert_eq!(t.pos, (5, 2));
    let mut m2 = m;
    let back = m2.mv((1, -3));
    assert!(same(&back, &t));
}

#[test]
fn rot_clockwise_of_the_i_piece_lies_it_down() {
    let mut i = Tetro::I((3, 4));
    let r = i.rot(true);
    // (x, y) -> (height - y, x) with height 3
    assert_eq!(r.tiles, [(3, 0), (2, 0), (1, 0), (0, 0)]);
    assert_eq!((r.width, r.height), (3, 0));
    assert_eq!(r.pos, (3, 4));
    assert_eq!(r.color, 6);
}

#[test]
fn rot_clockwise_of_the_l_piece_as_drawn() {
    // X.        XXX
    // X.   ->   X..
    // XX
    let mut l = Tetro::L((0, 0));
    let r = l.rot(true);
    assert_eq!(r.tiles, [(2, 0), (1, 0), (0, 0), (0, 1)]);
    assert_eq!((r.width, r.height), (2, 1));
}

#[test]
fn rot_counter_clockwise_of_the_l_piece_as_drawn() {
    // X.        ..X
    // X.   ->   XXX
    // XX
    let mut l = Tetro::L((0, 0));
    let r = l.rot(false);
    // (x, y) -> (y, width - x) with width 1
    assert_eq!(r.tiles, [(0, 1), (1, 1), (2, 1), (2, 0)]);
    assert_eq!((r.width, r.height), (2, 1));
}

#[test]
fn rot_there_and_back_gives_the_piece() {
    for p in all_pieces((5, 2)) {
        let mut t = p;
        let mut r = t.rot(true);
        let back = r.rot(false);
        assert!(same(&back, &p));
        let mut r2 = t.rot(false);
        let back2 = r2.rot(true);
        assert!(same(&back2, &p));
    }
}

#[test]
fn four_clockwise_turns_give_the_piece() {
    for p in all_pieces((1, 1)) {
        let mut t = p;
        for _ in 0..4 {
            t = t.rot(true);
        }
        assert!(same(&t, &p));
    }
}

#[test]
fn four_counter_clockwise_turns_give_the_piece() {
    for p in all_pieces((1, 1)) {
        let mut t = p;
        for _ in 0..4 {
            t = t.rot(false);
        }
        assert!(same(&t, &p));
    }
}

#[test]
fn real_tiles_add_the_position() {
    let t = Tetro::S((3, -1));
    assert_eq!(t.real_tiles(), [(3, 0), (4, 0), (4, -1), (5, -1)]);
}
