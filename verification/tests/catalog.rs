use titlis::randomizer::Randomizer;
use titlis::tetromino::Tetromino;

const SOLID: [Tetromino; 7] = [
    Tetromino::I,
    Tetromino::O,
    Tetromino::T,
    Tetromino::J,
    Tetromino::L,
    Tetromino::S,
    Tetromino::Z,
];

#[test]
fn shape_tables_are_exact() {
    assert_eq!(Tetromino::I.shape(), [[0, -1], [0, 0], [0, 1], [0, 2]]);
    assert_eq!(Tetromino::O.shape(), [[0, 0], [1, 0], [0, 1], [1, 1]]);
    assert_eq!(Tetromino::T.shape(), [[-1, 0], [0, 0], [1, 0], [0, -1]]);
    assert_eq!(Tetromino::J.shape(), [[-1, -1], [0, -1], [0, 0], [0, 1]]);
    assert_eq!(Tetromino::L.shape(), [[1, -1], [0, -1], [0, 0], [0, 1]]);
    assert_eq!(Tetromino::S.shape(), [[0, -1], [0, 0], [-1, 0], [-1, 1]]);
    assert_eq!(Tetromino::Z.shape(), [[0, -1], [0, 0], [1, 0], [1, 1]]);
}

#[test]
fn sentinel_shape_is_four_times_the_anchor() {
    assert_eq!(Tetromino::X.shape(), [[0, 0], [0, 0], [0, 0], [0, 0]]);
}

#[test]
fn solid_shapes_have_four_different_cells() {
    for kind in SOLID {
        let shape = kind.shape();
        for i in 0..4 {
            for j in (i + 1)..4 {
                assert_ne!(shape[i], shape[j], "{:?}: cells {} and {}", kind, i, j);
            }
        }
    }
}

#[test]
fn every_shape_holds_its_anchor() {
    for kind in SOLID {
        assert!(kind.shape().contains(&[0, 0]), "{:?}", kind);
    }
}

#[test]
fn colors_are_exact() {
    assert_eq!(Tetromino::I.color(), (104, 102, 204));
    assert_eq!(Tetromino::O.color(), (204, 102, 204));
    assert_eq!(Tetromino::T.color(), (204, 204, 102));
    assert_eq!(Tetromino::J.color(), (204, 204, 204));
    assert_eq!(Tetromino::L.color(), (218, 170, 0));
    assert_eq!(Tetromino::S.color(), (204, 102, 102));
    assert_eq!(Tetromino::Z.color(), (102, 204, 102));
    assert_eq!(Tetromino::X.color(), (0, 0, 0));
}

#[test]
fn top_is_the_largest_dy() {
    assert_eq!(Tetromino::I.top(), 2);
    assert_eq!(Tetromino::O.top(), 1);
    assert_eq!(Tetromino::T.top(), 0);
    assert_eq!(Tetromino::J.top(), 1);
    assert_eq!(Tetromino::L.top(), 1);
    assert_eq!(Tetromino::S.top(), 1);
    assert_eq!(Tetromino::Z.top(), 1);
    assert_eq!(Tetromino::X.top(), 0);
    for kind in SOLID {
        let largest = kind.shape().iter().map(|p| p[1]).max().unwrap();
        assert_eq!(kind.top(), largest);
    }
}

#[test]
fn from_index_follows_the_catalogue_order() {
    assert_eq!(Tetromino::from_index(0), Tetromino::I);
    assert_eq!(Tetromino::from_index(1), Tetromino::O);
    assert_eq!(Tetromino::from_index(2), Tetromino::T);
    assert_eq!(Tetromino::from_index(3), Tetromino::J);
    assert_eq!(Tetromino::from_index(4), Tetromino::L);
    assert_eq!(Tetromino::from_index(5), Tetromino::S);
    assert_eq!(Tetromino::from_index(6), Tetromino::Z);
}

#[test]
fn from_index_wraps_modulo_seven() {
    assert_eq!(Tetromino::from_index(7), Tetromino::I);
    assert_eq!(Tetromino::from_index(13), Tetromino::Z);
    assert_eq!(Tetromino::from_index(700), Tetromino::I);
    // 4294967295 = 7 * 613566756 + 3
    assert_eq!(Tetromino::from_index(u32::MAX), Tetromino::J);
}

#[test]
fn from_index_never_gives_the_sentinel() {
    for n in 0..10_000u32 {
        assert_ne!(Tetromino::from_index(n), Tetromino::X);
        assert_eq!(Tetromino::from_index(n), SOLID[(n % 7) as usize]);
    }
}

#[test]
fn rand_never_gives_the_sentinel() {
    let mut source = Randomizer::new(2024);
    for _ in 0..2_000 {
        assert_ne!(Tetromino::rand(&mut source), Tetromino::X);
    }
}

#[test]
fn rand_reaches_every_solid_kind() {
    let mut source = Randomizer::new(7);
    let mut seen = [false; 7];
    for _ in 0..2_000 {
        let kind = Tetromino::rand(&mut source);
        let at = SOLID.iter().position(|k| *k == kind).unwrap();
        seen[at] = true;
    }
    assert_eq!(seen, [true; 7]);
}

#[test]
fn equal_seeds_give_equal_streams() {
    let mut a = Randomizer::new(99);
    let mut b = Randomizer::new(99);
    for _ in 0..512 {
        assert_eq!(Tetromino::rand(&mut a), Tetromino::rand(&mut b));
    }
}

#[test]
fn the_stream_is_not_constant() {
    let mut source = Randomizer::new(0);
    let first = Tetromino::rand(&mut source);
    let mut differs = false;
    for _ in 0..64 {
        if Tetromino::rand(&mut source) != first {
            differs = true;
        }
    }
    assert!(differs);
}

#[test]
fn different_seeds_give_different_streams() {
    let mut a = Randomizer::new(1);
    let mut b = Randomizer::new(2);
    let xs: Vec<Tetromino> = (0..64).map(|_| Tetromino::rand(&mut a)).collect();
    let ys: Vec<Tetromino> = (0..64).map(|_| Tetromino::rand(&mut b)).collect();
    assert_ne!(xs, ys);
}
