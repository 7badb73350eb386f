//! A piece: a kind at an anchor position in one of its four orientations.
//!
//! Every operation returns a new piece and leaves the receiver untouched.
//! Whether a position is allowed is for the field to decide.

use crate::model::piece::lemma_offsets_bounded;
use crate::model::piece::lemma_rotated_wf;
use crate::model::piece::lemma_spawn_alignment;
use crate::model::piece::turn;
use crate::model::piece::turned;
use crate::model::piece::BlockView;
use crate::randomizer::Randomizer;
use crate::tetromino::offsets_of;
use crate::tetromino::Tetromino;
use vstd::prelude::*;

verus! {

/// A piece of the game: a kind, its four offsets in the current orientation,
/// and the anchor they are measured from.
#[derive(Copy, Clone, Debug, PartialEq, Eq)]
pub struct Block {
    kind: Tetromino,
    points: [[i32; 2]; 4],
    x: i32,
    y: i32,
}

impl View for Block {
    type V = BlockView;

    closed spec fn view(&self) -> BlockView {
        BlockView {
            kind: self.kind,
            offsets: offsets_of(self.points),
            x: self.x as int,
            y: self.y as int,
        }
    }
}

impl Block {
    /// The offsets are the kind's shape in one of its four orientations.
    pub open spec fn wf(&self) -> bool {
        self@.wf()
    }

    /// A piece of a random solid kind, placed as [`Block::spawn`] places it.
    pub fn new(x: i32, y: i32, source: &mut Randomizer) -> (block: Block)
        requires
            y >= i32::MIN + 2,
        ensures
            block@.kind.is_solid(),
            block@ == BlockView::spawn(block@.kind, x as int, y as int),
            block.wf(),
    {
        let kind = Tetromino::rand(source);
        Block::spawn(kind, x, y)
    }

    /// A piece of `kind` in spawn orientation, anchored so that its highest
    /// cell lies in row `y`.
    pub fn spawn(kind: Tetromino, x: i32, y: i32) -> (block: Block)
        requires
            y - kind.spec_top() >= i32::MIN,
        ensures
            block@ == BlockView::spawn(kind, x as int, y as int),
            block.wf(),
            forall|i: int| 0 <= i < 4 ==> (#[trigger] block@.cell(i)).1 <= y,
            exists|i: int| 0 <= i < 4 && (#[trigger] block@.cell(i)).1 == y,
    {
        proof {
            lemma_spawn_alignment(kind, x as int, y as int);
        }
        Block { kind, points: kind.shape(), x, y: y - kind.top() }
    }

    /// The piece that stands for "no active piece": kind `X` at the origin.
    pub fn empty() -> (block: Block)
        ensures
            block@ == BlockView::empty(),
            block.wf(),
    {
        let kind = Tetromino::X;
        let block = Block { kind, points: kind.shape(), x: 0, y: 0 };
        assert(block@.offsets =~= turned(kind.spec_shape(), 0));
        block
    }

    /// True if the piece stands for "no active piece".
    pub fn is_empty(&self) -> (empty: bool)
        ensures
            empty == self@.is_empty(),
    {
        self.kind == Tetromino::X
    }

    /// The kind of the piece.
    pub fn kind(&self) -> (kind: Tetromino)
        ensures
            kind == self@.kind,
    {
        self.kind
    }

    /// The column of the anchor.
    pub fn x(&self) -> (x: i32)
        ensures
            x == self@.x,
    {
        self.x
    }

    /// The row of the anchor.
    pub fn y(&self) -> (y: i32)
        ensures
            y == self@.y,
    {
        self.y
    }

    /// The offset of cell `i` from the anchor.
    pub fn offset(&self, i: usize) -> (o: (i32, i32))
        requires
            i < 4,
        ensures
            (o.0 as int, o.1 as int) == self@.offsets[i as int],
    {
        (self.points[i][0], self.points[i][1])
    }

    /// The absolute position of cell `i`.
    pub fn point(&self, i: usize) -> (p: (i32, i32))
        requires
            i < 4,
            i32::MIN <= self@.cell(i as int).0 <= i32::MAX,
            i32::MIN <= self@.cell(i as int).1 <= i32::MAX,
        ensures
            (p.0 as int, p.1 as int) == self@.cell(i as int),
    {
        (self.x + self.points[i][0], self.y + self.points[i][1])
    }

    /// The piece one column to the left.
    pub fn left(&self) -> (block: Block)
        requires
            self@.x > i32::MIN,
        ensures
            block@ == self@.left(),
    {
        Block { x: self.x - 1, ..*self }
    }

    /// The piece one column to the right.
    pub fn right(&self) -> (block: Block)
        requires
            self@.x < i32::MAX,
        ensures
            block@ == self@.right(),
    {
        Block { x: self.x + 1, ..*self }
    }

    /// The piece one row further down.
    pub fn down(&self) -> (block: Block)
        requires
            self@.y > i32::MIN,
        ensures
            block@ == self@.down(),
    {
        Block { y: self.y - 1, ..*self }
    }

    /// A quarter turn clockwise.
    pub fn rotate_right(&self) -> (block: Block)
        requires
            self.wf(),
        ensures
            block@ == self@.rotated(true),
            block.wf(),
    {
        self.rotate(true)
    }

    /// A quarter turn counterclockwise.
    pub fn rotate_left(&self) -> (block: Block)
        requires
            self.wf(),
        ensures
            block@ == self@.rotated(false),
            block.wf(),
    {
        self.rotate(false)
    }

    /// A quarter turn about the anchor: clockwise sends each offset
    /// `(dx, dy)` to `(dy, -dx)`, counterclockwise to `(-dy, dx)`.
    pub fn rotate(&self, clockwise: bool) -> (block: Block)
        requires
            self.wf(),
        ensures
            block@ == self@.rotated(clockwise),
            block.wf(),
    {
        proof {
            lemma_offsets_bounded(self@);
            lemma_rotated_wf(self@, clockwise);
        }
        let mut points: [[i32; 2]; 4] = [[0; 2]; 4];
        for i in 0..4
            invariant
                forall|j: int|
                    0 <= j < 4 ==> -2 <= (#[trigger] self@.offsets[j]).0 <= 2 && -2
                        <= self@.offsets[j].1 <= 2,
                forall|j: int|
                    0 <= j < i ==> (#[trigger] points[j][0] as int, points[j][1] as int) == turn(
                        self@.offsets[j],
                        clockwise,
                    ),
        {
            assert(self@.offsets[i as int] == (
                self.points[i as int][0] as int,
                self.points[i as int][1] as int,
            ));
            points[i] = if clockwise {
                [self.points[i][1], -self.points[i][0]]
            } else {
                [-self.points[i][1], self.points[i][0]]
            };
        }
        let block = Block { points, ..*self };
        assert(block@.offsets =~= self@.rotated(clockwise).offsets);
        block
    }
}

} // verus!
