//! The catalogue of piece kinds: their cell offsets and display colours.

use crate::randomizer::Randomizer;
use vstd::prelude::*;

verus! {

/// The identity of a piece: one of the seven solid shapes, or `X`, which
/// marks a free cell of the field and the absence of an active piece.
#[derive(Copy, Clone, Debug, PartialEq, Eq, Structural)]
pub enum Tetromino {
    I,
    O,
    T,
    J,
    L,
    S,
    Z,
    X,
}

/// The offsets held by a table of four `[dx, dy]` rows.
pub open spec fn offsets_of(table: [[i32; 2]; 4]) -> Seq<(int, int)> {
    Seq::new(4, |i: int| (table[i][0] as int, table[i][1] as int))
}

/// The largest `dy` among four offsets.
pub open spec fn max_dy(offsets: Seq<(int, int)>) -> int {
    let a = if offsets[0].1 >= offsets[1].1 { offsets[0].1 } else { offsets[1].1 };
    let b = if offsets[2].1 >= offsets[3].1 { offsets[2].1 } else { offsets[3].1 };
    if a >= b { a } else { b }
}

impl Tetromino {
    /// True of the seven kinds that a piece can be made of.
    pub open spec fn is_solid(self) -> bool {
        self != Tetromino::X
    }

    /// The four cell offsets of a kind in its spawn orientation, as
    /// `(dx, dy)` pairs relative to the anchor. `X` has all four at the anchor.
    pub open spec fn spec_shape(self) -> Seq<(int, int)> {
        match self {
            Tetromino::I => seq![(0, -1), (0, 0), (0, 1), (0, 2)],
            Tetromino::O => seq![(0, 0), (1, 0), (0, 1), (1, 1)],
            Tetromino::T => seq![(-1, 0), (0, 0), (1, 0), (0, -1)],
            Tetromino::J => seq![(-1, -1), (0, -1), (0, 0), (0, 1)],
            Tetromino::L => seq![(1, -1), (0, -1), (0, 0), (0, 1)],
            Tetromino::S => seq![(0, -1), (0, 0), (-1, 0), (-1, 1)],
            Tetromino::Z => seq![(0, -1), (0, 0), (1, 0), (1, 1)],
            Tetromino::X => seq![(0, 0), (0, 0), (0, 0), (0, 0)],
        }
    }

    /// The display colour of a kind as `(red, green, blue)`. `X` is black.
    pub open spec fn spec_color(self) -> (u8, u8, u8) {
        match self {
            Tetromino::I => (104, 102, 204),
            Tetromino::O => (204, 102, 204),
            Tetromino::T => (204, 204, 102),
            Tetromino::J => (204, 204, 204),
            Tetromino::L => (218, 170, 0),
            Tetromino::S => (204, 102, 102),
            Tetromino::Z => (102, 204, 102),
            Tetromino::X => (0, 0, 0),
        }
    }

    /// The kind that stands at position `i` of the catalogue; `X` outside `0..7`.
    pub open spec fn of_index(i: int) -> Tetromino {
        if i == 0 {
            Tetromino::I
        } else if i == 1 {
            Tetromino::O
        } else if i == 2 {
            Tetromino::T
        } else if i == 3 {
            Tetromino::J
        } else if i == 4 {
            Tetromino::L
        } else if i == 5 {
            Tetromino::S
        } else if i == 6 {
            Tetromino::Z
        } else {
            Tetromino::X
        }
    }

    /// How far the highest cell of the spawn orientation lies above the
    /// anchor.
    pub open spec fn spec_top(self) -> int {
        max_dy(self.spec_shape())
    }

    /// Picks one of the seven solid kinds with the next number of `source`.
    pub fn rand(source: &mut Randomizer) -> (kind: Tetromino)
        ensures
            kind.is_solid(),
    {
        Tetromino::from_index(source.next_u32())
    }

    /// Maps a number to a solid kind by its remainder modulo seven.
    pub fn from_index(n: u32) -> (kind: Tetromino)
        ensures
            kind == Tetromino::of_index(n as int % 7),
            kind.is_solid(),
    {
        match n % 7 {
            0 => Tetromino::I,
            1 => Tetromino::O,
            2 => Tetromino::T,
            3 => Tetromino::J,
            4 => Tetromino::L,
            5 => Tetromino::S,
            6 => Tetromino::Z,
            _ => Tetromino::X,
        }
    }

    /// The four cell offsets of the kind in its spawn orientation, each as
    /// `[dx, dy]`.
    pub fn shape(&self) -> (table: [[i32; 2]; 4])
        ensures
            offsets_of(table) == self.spec_shape(),
    {
        match self {
            Tetromino::I => [[0, -1], [0, 0], [0, 1], [0, 2]],
            Tetromino::O => [[0, 0], [1, 0], [0, 1], [1, 1]],
            Tetromino::T => [[-1, 0], [0, 0], [1, 0], [0, -1]],
            Tetromino::J => [[-1, -1], [0, -1], [0, 0], [0, 1]],
            Tetromino::L => [[1, -1], [0, -1], [0, 0], [0, 1]],
            Tetromino::S => [[0, -1], [0, 0], [-1, 0], [-1, 1]],
            Tetromino::Z => [[0, -1], [0, 0], [1, 0], [1, 1]],
            Tetromino::X => [[0; 2]; 4],
        }
    }

    /// The display colour of the kind as `(red, green, blue)`.
    pub fn color(&self) -> (rgb: (u8, u8, u8))
        ensures
            rgb == self.spec_color(),
    {
        match self {
            Tetromino::I => (104, 102, 204),
            Tetromino::O => (204, 102, 204),
            Tetromino::T => (204, 204, 102),
            Tetromino::J => (204, 204, 204),
            Tetromino::L => (218, 170, 0),
            Tetromino::S => (204, 102, 102),
            Tetromino::Z => (102, 204, 102),
            _ => (0, 0, 0),
        }
    }

    /// How far the highest cell of the spawn orientation lies above the
    /// anchor: the largest `dy` of the shape.
    pub fn top(&self) -> (dy: i32)
        ensures
            dy == self.spec_top(),
            0 <= dy <= 2,
    {
        let table = self.shape();
        let mut dy: i32 = table[0][1];
        let mut i: usize = 1;
        while i < 4
            invariant
                1 <= i <= 4,
                exists|j: int| 0 <= j < i && dy == #[trigger] table[j][1],
                forall|j: int| 0 <= j < i ==> #[trigger] table[j][1] <= dy,
            decreases 4 - i,
        {
            if table[i][1] > dy {
                dy = table[i][1];
            }
            i += 1;
        }
        dy
    }
}

} // verus!
