//! The engine: one field, one active piece, the score and the gravity clock.
//!
//! A game is in one of three states. With no active piece, the next tick
//! spawns one. With an active piece, ticks and keys move it until it can
//! fall no further; it is then locked into the field, full rows are cleared
//! and scored, and the next piece is spawned at once. When a spawned piece
//! does not fit, the game is over, and stays so.

use crate::block::Block;
use crate::board::Board;
use crate::board::BOARD_HEIGHT;
use crate::board::BOARD_WIDTH;
use crate::model::grid::lemma_cleared;
use crate::model::grid::lemma_empty_grid;
use crate::model::grid::lemma_next_places;
use crate::model::rules::fall_interval;
use crate::model::rules::lemma_score_grows;
use crate::model::rules::GameView;
use crate::randomizer::Randomizer;
use crate::tetromino::Tetromino;
use vstd::prelude::*;

verus! {


/// The fall interval of a game with no points, in milliseconds.
pub const BASE_INTERVAL_MS: u64 = 1000;

/// The shortest fall interval, in milliseconds. Each point shortens the
/// interval by one millisecond; from 999 points on it stays at this floor.
pub const MIN_INTERVAL_MS: u64 = 1;

/// The most that one lock can add to the score: a piece fills at most four
/// rows. A score that leaves this much room can take any lock.
pub const MAX_LINE_BONUS: u32 = 16;

/// The column at which pieces are spawned: the middle of the field, at half
/// its width.
pub const SPAWN_X: i32 = 5;

/// The row in which the highest cell of a spawned piece is placed: the top
/// row of the field.
pub const SPAWN_Y: i32 = BOARD_HEIGHT - 1;

/// What the player can ask for.
#[derive(Copy, Clone, Debug, PartialEq, Eq, Structural)]
pub enum Key {
    /// Move one column to the left.
    LEFT,
    /// Move one column to the right.
    RIGHT,
    /// Turn a quarter turn clockwise.
    UP,
    /// Turn a quarter turn counterclockwise.
    DOWN,
    /// Drop as far as the piece can fall, and lock it.
    SP,
    /// Move one row down, or lock the piece if it cannot fall.
    OTHER,
    /// Stop playing. The engine takes no action: the caller stops driving it.
    QUIT,
}

/// The state of one game.
#[derive(Debug)]
pub struct Game {
    board: Board,
    current: Block,
    stopped: bool,
    time: u64,
    score: u32,
    source: Randomizer,
}

impl View for Game {
    type V = GameView;

    closed spec fn view(&self) -> GameView {
        GameView {
            grid: self.board@,
            current: self.current@,
            stopped: self.stopped,
            score: self.score as int,
            last_fall: self.time as int,
        }
    }
}

/// Computes the time between two falls at a given score, in milliseconds.
pub fn fall_interval_ms(score: u32) -> (ms: u64)
    ensures
        ms == fall_interval(score as int),
        MIN_INTERVAL_MS <= ms <= BASE_INTERVAL_MS,
{
    if score as u64 + MIN_INTERVAL_MS <= BASE_INTERVAL_MS {
        BASE_INTERVAL_MS - score as u64
    } else {
        MIN_INTERVAL_MS
    }
}

impl Game {
    /// What holds of every game: see [`GameView::wf`].
    pub open spec fn wf(&self) -> bool {
        self@.wf()
    }

    /// A game with a free field, no active piece and no points, whose pieces
    /// are picked with `source` and whose clock starts at `now_ms`.
    pub fn new(source: Randomizer, now_ms: u64) -> (game: Game)
        ensures
            game@ == GameView::start(now_ms as int),
            game.wf(),
    {
        let game = Game {
            board: Board::new(),
            current: Block::empty(),
            stopped: false,
            time: now_ms,
            score: 0,
            source,
        };
        proof {
            lemma_empty_grid();
        }
        game
    }

    /// The field.
    pub fn board(&self) -> (board: &Board)
        ensures
            board@ == self@.grid,
    {
        &self.board
    }

    /// The active piece; an empty piece if none is active.
    pub fn current(&self) -> (block: Block)
        ensures
            block@ == self@.current,
    {
        self.current
    }

    /// True once the game is over.
    pub fn is_stopped(&self) -> (stopped: bool)
        ensures
            stopped == self@.stopped,
    {
        self.stopped
    }

    /// The points gained so far.
    pub fn score(&self) -> (score: u32)
        ensures
            score == self@.score,
    {
        self.score
    }

    /// The time of the last fall that the clock caused, in milliseconds.
    pub fn last_fall(&self) -> (ms: u64)
        ensures
            ms == self@.last_fall,
    {
        self.time
    }

    /// The positions of the four cells of the active piece, or `None` while
    /// no piece is active.
    pub fn active_cells(&self) -> (cells: Option<[(i32, i32); 4]>)
        requires
            self.wf(),
        ensures
            cells is None <==> self@.current.is_empty(),
            cells matches Some(c) ==> forall|i: int|
                0 <= i < 4 ==> (#[trigger] c[i].0 as int, c[i].1 as int) == self@.current.cell(i),
    {
        if self.current.is_empty() {
            return None;
        }
        let mut cells: [(i32, i32); 4] = [(0, 0); 4];
        for i in 0..4
            invariant
                self@.grid.fits(self@.current),
                forall|j: int|
                    0 <= j < i ==> (#[trigger] cells[j].0 as int, cells[j].1 as int)
                        == self@.current.cell(j),
        {
            cells[i] = self.current.point(i);
        }
        Some(cells)
    }

    /// Takes `block` as the active piece if it fits on the field, and says
    /// whether it did. A piece that does not fit changes nothing.
    pub fn try_move(&mut self, block: Block) -> (moved: bool)
        requires
            old(self).wf(),
            block.wf(),
        ensures
            moved == old(self)@.grid.fits(block@),
            final(self)@ == old(self)@.try_move(block@),
            !moved ==> *final(self) == *old(self),
            final(self).wf(),
    {
        if !self.board.fits(&block) {
            return false;
        }
        self.current = block;
        true
    }

    /// Spawns a piece of a random solid kind; see [`Game::put_block_of`].
    pub fn put_block(&mut self)
        requires
            old(self).wf(),
        ensures
            final(self).wf(),
            exists|kind: Tetromino|
                kind.is_solid() && final(self)@ == #[trigger] old(self)@.put_block(kind),
    {
        let block = Block::new(BOARD_WIDTH / 2, BOARD_HEIGHT - 1, &mut self.source);
        self.enter(block);
        assert(self@ == old(self)@.put_block(block@.kind));
    }

    /// Spawns a piece of `kind` with its highest cell in the top row. If the
    /// piece does not fit, the game is over and the piece is not installed.
    pub fn put_block_of(&mut self, kind: Tetromino)
        requires
            old(self).wf(),
        ensures
            final(self)@ == old(self)@.put_block(kind),
            final(self).wf(),
    {
        let block = Block::spawn(kind, BOARD_WIDTH / 2, BOARD_HEIGHT - 1);
        self.enter(block);
    }

    /// Installs a freshly spawned piece, or ends the game if it does not fit.
    fn enter(&mut self, block: Block)
        requires
            old(self).wf(),
            block.wf(),
            block@.x == SPAWN_X,
            SPAWN_Y - 2 <= block@.y <= SPAWN_Y,
        ensures
            final(self)@ == (if old(self)@.grid.fits(block@) {
                GameView { current: block@, ..old(self)@ }
            } else {
                GameView { stopped: true, ..old(self)@ }
            }),
            final(self).wf(),
    {
        if !self.try_move(block) {
            self.stopped = true;
        }
    }

    /// Clears the full rows of the field, adds the square of their number to
    /// the score, and leaves no piece active.
    pub fn remove_complete_lines(&mut self)
        requires
            old(self)@.score + old(self)@.grid.full_count() * old(self)@.grid.full_count()
                <= u32::MAX,
        ensures
            final(self)@ == old(self)@.remove_complete_lines(),
            final(self).wf(),
    {
        proof {
            self.board.lemma_wf();
            lemma_cleared(self@.grid);
        }
        let line_count = self.board.clear_completed_lines();
        self.score += line_count * line_count;
        self.current = Block::empty();
    }

    /// Settles the active piece: locks it into the field, clears and scores
    /// the rows that this fills, and spawns the next piece.
    pub fn block_dropped(&mut self)
        requires
            old(self).wf(),
            old(self)@.grid.fits(old(self)@.current),
            old(self)@.room_to_settle(),
        ensures
            final(self).wf(),
            exists|kind: Tetromino|
                kind.is_solid() && final(self)@ == #[trigger] old(self)@.block_dropped(kind),
            final(self)@.score == old(self)@.score + old(self)@.lines_at_lock() * old(
                self,
            )@.lines_at_lock(),
    {
        self.board.lock(&self.current);
        self.remove_complete_lines();
        if self.current.is_empty() {
            let ghost settled = self@;
            self.put_block();
            proof {
                let kind = choose|kind: Tetromino|
                    kind.is_solid() && self@ == #[trigger] settled.put_block(kind);
                assert(self@ == old(self)@.block_dropped(kind));
            }
        }
    }

    /// Moves the active piece one row down. If it cannot fall, it is settled
    /// as [`Game::block_dropped`] settles it.
    pub fn down(&mut self)
        requires
            old(self).wf(),
            old(self)@.grid.fits(old(self)@.current),
            old(self)@.room_to_step_down(),
        ensures
            final(self).wf(),
            exists|kind: Tetromino|
                kind.is_solid() && final(self)@ == #[trigger] old(self)@.down(kind),
    {
        proof {
            lemma_next_places(self@.grid, self@.current);
        }
        if !self.try_move(self.current.down()) {
            self.block_dropped();
            proof {
                let kind = choose|kind: Tetromino|
                    kind.is_solid() && self@ == #[trigger] old(self)@.block_dropped(kind);
                assert(self@ == old(self)@.down(kind));
            }
        } else {
            assert(self@ == old(self)@.down(Tetromino::I));
        }
    }

    /// Moves the active piece down until the next step would not fit, then
    /// settles it as [`Game::block_dropped`] settles it.
    pub fn drop_down(&mut self)
        requires
            old(self).wf(),
            old(self)@.grid.fits(old(self)@.current),
            old(self)@.room_to_drop(),
        ensures
            final(self).wf(),
            exists|kind: Tetromino|
                kind.is_solid() && final(self)@ == #[trigger] old(self)@.drop_down(kind),
    {
        while self.current.y() > 0
            invariant
                self.wf(),
                self@.grid.fits(self@.current),
                self@.grid.landing(self@.current) == old(self)@.grid.landing(old(self)@.current),
                self@ == (GameView { current: self@.current, ..old(self)@ }),
                self@.room_to_drop(),
            ensures
                self@.grid.landing(self@.current) == self@.current,
            decreases self@.current.y,
        {
            proof {
                lemma_next_places(self@.grid, self@.current);
            }
            if !self.try_move(self.current.down()) {
                break;
            }
        }
        let ghost landed = self@;
        self.block_dropped();
        proof {
            let kind = choose|kind: Tetromino|
                kind.is_solid() && self@ == #[trigger] landed.block_dropped(kind);
            assert(self@ == old(self)@.drop_down(kind));
        }
    }

    /// Carries out what the player asked for. Nothing happens once the game
    /// is over, or while no piece is active. A move or a turn that does not
    /// fit is dropped.
    pub fn key_pressed(&mut self, key: Key)
        requires
            old(self).wf(),
            old(self)@.room_for_key(key),
        ensures
            final(self).wf(),
            exists|kind: Tetromino|
                kind.is_solid() && final(self)@ == #[trigger] old(self)@.key_pressed(key, kind),
            old(self)@.stopped ==> *final(self) == *old(self),
            final(self)@.score >= old(self)@.score,
    {
        if self.stopped || self.current.is_empty() {
            return;
        }
        proof {
            lemma_next_places(self@.grid, self@.current);
        }
        match key {
            Key::LEFT => {
                self.try_move(self.current.left());
            },
            Key::RIGHT => {
                self.try_move(self.current.right());
            },
            Key::UP => {
                self.try_move(self.current.rotate_right());
            },
            Key::DOWN => {
                self.try_move(self.current.rotate_left());
            },
            Key::OTHER => {
                self.down();
                proof {
                    let kind = choose|kind: Tetromino|
                        kind.is_solid() && self@ == #[trigger] old(self)@.down(kind);
                    assert(self@ == old(self)@.key_pressed(key, kind));
                    lemma_score_grows(old(self)@, kind);
                }
            },
            Key::SP => {
                self.drop_down();
                proof {
                    let kind = choose|kind: Tetromino|
                        kind.is_solid() && self@ == #[trigger] old(self)@.drop_down(kind);
                    assert(self@ == old(self)@.key_pressed(key, kind));
                    lemma_score_grows(old(self)@, kind);
                }
            },
            Key::QUIT => {
                assert(self@ == old(self)@.key_pressed(key, Tetromino::I));
            },
        };
    }

    /// Advances the clock to `now_ms`. With no active piece, a piece is
    /// spawned. With one, and once more than the fall interval has passed
    /// since the last fall, the piece moves one row down and the interval
    /// starts anew; if it cannot fall, it is settled. Nothing happens once
    /// the game is over.
    pub fn tick(&mut self, now_ms: u64)
        requires
            old(self).wf(),
            old(self)@.room_for_tick(now_ms as int),
        ensures
            final(self).wf(),
            exists|kind: Tetromino|
                kind.is_solid() && final(self)@ == #[trigger] old(self)@.tick(now_ms as int, kind),
            old(self)@.stopped ==> *final(self) == *old(self),
            final(self)@.score >= old(self)@.score,
    {
        if self.stopped {
            return;
        }
        if self.current.is_empty() {
            self.put_block();
            proof {
                let kind = choose|kind: Tetromino|
                    kind.is_solid() && self@ == #[trigger] old(self)@.put_block(kind);
                assert(self@ == old(self)@.tick(now_ms as int, kind));
            }
        } else if now_ms > self.time && now_ms - self.time > fall_interval_ms(self.score) {
            proof {
                lemma_next_places(self@.grid, self@.current);
            }
            if self.try_move(self.current.down()) {
                self.time = now_ms;
            } else {
                self.block_dropped();
                proof {
                    let kind = choose|kind: Tetromino|
                        kind.is_solid() && self@ == #[trigger] old(self)@.block_dropped(kind);
                    assert(self@ == old(self)@.tick(now_ms as int, kind));
                }
            }
        } else {
            assert(self@ == old(self)@.tick(now_ms as int, Tetromino::I));
        }
    }
}

} // verus!
