//! The rules of the game as functions on mathematical states, and what
//! holds of every state that a game can reach.

use crate::game::Key;
use crate::game::BASE_INTERVAL_MS;
use crate::game::MAX_LINE_BONUS;
use crate::game::MIN_INTERVAL_MS;
use crate::game::SPAWN_X;
use crate::game::SPAWN_Y;
use crate::model::grid::lemma_cleared;
use crate::model::grid::lemma_lock_fills_few;
use crate::model::grid::Grid;
use crate::model::piece::lemma_rotated_wf;
use crate::model::piece::lemma_spawn_alignment;
use crate::model::piece::turned;
use crate::model::piece::BlockView;
use crate::tetromino::Tetromino;
use vstd::prelude::*;

verus! {

/// The mathematical value of a [`crate::game::Game`].
pub struct GameView {
    pub grid: Grid,
    pub current: BlockView,
    pub stopped: bool,
    pub score: int,
    pub last_fall: int,
}

/// The time between two falls at a given score.
pub open spec fn fall_interval(score: int) -> int {
    if score + MIN_INTERVAL_MS <= BASE_INTERVAL_MS {
        BASE_INTERVAL_MS - score
    } else {
        MIN_INTERVAL_MS as int
    }
}

/// Below a thousand points the fall interval is a thousand milliseconds
/// less one for each point; from there on it is one millisecond.
pub proof fn lemma_fall_interval(score: int)
    ensures
        0 <= score < 1000 ==> fall_interval(score) == 1000 - score,
        score >= 1000 ==> fall_interval(score) == 1,
        score >= 0 ==> fall_interval(score) >= 1,
{
}

impl GameView {
    /// The field has its dimensions and no full row, the active piece is one
    /// of the four orientations of its kind, and it stands on free cells of
    /// the field.
    pub open spec fn wf(self) -> bool {
        &&& self.grid.wf()
        &&& self.grid.no_full_row()
        &&& self.current.wf()
        &&& self.score >= 0
        &&& !self.current.is_empty() ==> self.grid.fits(self.current)
    }

    /// The game as it starts at time `now`.
    pub open spec fn start(now: int) -> GameView {
        GameView {
            grid: Grid::empty(),
            current: BlockView::empty(),
            stopped: false,
            score: 0,
            last_fall: now,
        }
    }

    /// Takes `b` as the active piece if it fits, and changes nothing if not.
    pub open spec fn try_move(self, b: BlockView) -> GameView {
        if self.grid.fits(b) {
            GameView { current: b, ..self }
        } else {
            self
        }
    }

    /// Spawns a piece of `kind`, or ends the game if the piece does not fit.
    pub open spec fn put_block(self, kind: Tetromino) -> GameView {
        let b = BlockView::spawn(kind, SPAWN_X as int, SPAWN_Y as int);
        if self.grid.fits(b) {
            GameView { current: b, ..self }
        } else {
            GameView { stopped: true, ..self }
        }
    }

    /// The number of rows that are full once the active piece is locked.
    pub open spec fn lines_at_lock(self) -> int {
        self.grid.locked(self.current).full_count()
    }

    /// The score has room for the points that settling the active piece
    /// where it stands would add.
    pub open spec fn room_to_settle(self) -> bool {
        self.score + self.lines_at_lock() * self.lines_at_lock() <= u32::MAX
    }

    /// The score has room for what a step down would add: nothing if the
    /// piece can fall, else the points for settling it.
    pub open spec fn room_to_step_down(self) -> bool {
        self.grid.fits(self.current.down()) || self.room_to_settle()
    }

    /// The score has room for the points that settling the active piece
    /// where it lands would add.
    pub open spec fn room_to_drop(self) -> bool {
        GameView { current: self.grid.landing(self.current), ..self }.room_to_settle()
    }

    /// The score has room for what `key` would add. Only a key that can
    /// settle the active piece adds anything.
    pub open spec fn room_for_key(self, key: Key) -> bool {
        self.stopped || self.current.is_empty() || match key {
            Key::OTHER => self.room_to_step_down(),
            Key::SP => self.room_to_drop(),
            _ => true,
        }
    }

    /// The score has room for what a tick at time `now` would add. Only a
    /// fall that is due and does not fit adds anything.
    pub open spec fn room_for_tick(self, now: int) -> bool {
        self.stopped || self.current.is_empty() || !self.fall_due(now)
            || self.room_to_step_down()
    }

    /// Clears the full rows, adds the square of their number to the score,
    /// and leaves no piece active.
    pub open spec fn remove_complete_lines(self) -> GameView {
        GameView {
            grid: self.grid.cleared(),
            current: BlockView::empty(),
            score: self.score + self.grid.full_count() * self.grid.full_count(),
            ..self
        }
    }

    /// Locks the active piece, clears and scores the full rows, and spawns a
    /// piece of `kind`.
    pub open spec fn block_dropped(self, kind: Tetromino) -> GameView {
        GameView {
            grid: self.grid.locked(self.current),
            ..self
        }.remove_complete_lines().put_block(kind)
    }

    /// Moves the active piece one row down, or settles it if it cannot fall.
    pub open spec fn down(self, kind: Tetromino) -> GameView {
        if self.grid.fits(self.current.down()) {
            GameView { current: self.current.down(), ..self }
        } else {
            self.block_dropped(kind)
        }
    }

    /// Moves the active piece down to where it lands, and settles it there.
    pub open spec fn drop_down(self, kind: Tetromino) -> GameView {
        GameView { current: self.grid.landing(self.current), ..self }.block_dropped(kind)
    }

    /// What a key does. `kind` is the kind of the piece that is spawned if
    /// the key settles the active piece.
    pub open spec fn key_pressed(self, key: Key, kind: Tetromino) -> GameView {
        if self.stopped || self.current.is_empty() {
            self
        } else {
            match key {
                Key::LEFT => self.try_move(self.current.left()),
                Key::RIGHT => self.try_move(self.current.right()),
                Key::UP => self.try_move(self.current.rotated(true)),
                Key::DOWN => self.try_move(self.current.rotated(false)),
                Key::OTHER => self.down(kind),
                Key::SP => self.drop_down(kind),
                Key::QUIT => self,
            }
        }
    }

    /// True if, at time `now`, the active piece is due to fall.
    pub open spec fn fall_due(self, now: int) -> bool {
        now - self.last_fall > fall_interval(self.score)
    }

    /// What the clock does at time `now`. `kind` is the kind of the piece
    /// that is spawned if the tick spawns one.
    pub open spec fn tick(self, now: int, kind: Tetromino) -> GameView {
        if self.stopped {
            self
        } else if self.current.is_empty() {
            self.put_block(kind)
        } else if self.fall_due(now) {
            if self.grid.fits(self.current.down()) {
                GameView { current: self.current.down(), last_fall: now, ..self }
            } else {
                self.block_dropped(kind)
            }
        } else {
            self
        }
    }
}

/// Settling the active piece fills at most four rows.
pub proof fn lemma_lines_at_lock(g: GameView)
    requires
        g.grid.wf(),
        g.grid.no_full_row(),
    ensures
        0 <= g.lines_at_lock() <= 4,
        g.lines_at_lock() * g.lines_at_lock() <= MAX_LINE_BONUS,
{
    lemma_lock_fills_few(g.grid, g.current);
    let n = g.lines_at_lock();
    assert(n * n <= 16) by (nonlinear_arith)
        requires
            0 <= n <= 4,
    ;
}

/// A well-formed game whose score is at least [`MAX_LINE_BONUS`] below the
/// largest `u32` has room for whatever a tick or a key adds.
pub proof fn lemma_room(g: GameView)
    requires
        g.wf(),
        g.score + MAX_LINE_BONUS <= u32::MAX,
    ensures
        g.room_to_settle(),
        g.room_to_step_down(),
        g.room_to_drop(),
        forall|key: Key| #[trigger] g.room_for_key(key),
        forall|now: int| #[trigger] g.room_for_tick(now),
{
    lemma_lines_at_lock(g);
    lemma_lines_at_lock(GameView { current: g.grid.landing(g.current), ..g });
}

/// No step of the game takes points away.
pub proof fn lemma_score_grows(g: GameView, kind: Tetromino)
    ensures
        g.put_block(kind).score == g.score,
        g.remove_complete_lines().score >= g.score,
        g.block_dropped(kind).score >= g.score,
        g.down(kind).score >= g.score,
        g.drop_down(kind).score >= g.score,
        forall|key: Key| (#[trigger] g.key_pressed(key, kind)).score >= g.score,
        forall|now: int| (#[trigger] g.tick(now, kind)).score >= g.score,
{
}

/// Settling a piece adds the square of the number of rows that it fills to
/// the score, whether the piece is settled where it stands, after a step
/// down that did not fit, or where it lands after a drop.
pub proof fn lemma_settling_scores(g: GameView, kind: Tetromino)
    ensures
        g.block_dropped(kind).score == g.score + g.lines_at_lock() * g.lines_at_lock(),
        !g.grid.fits(g.current.down()) ==> g.down(kind).score == g.score + g.lines_at_lock()
            * g.lines_at_lock(),
        g.drop_down(kind).score == g.score + g.grid.locked(
            g.grid.landing(g.current),
        ).full_count() * g.grid.locked(g.grid.landing(g.current)).full_count(),
{
}

/// No step of the game takes the end of the game back.
pub proof fn lemma_over_stays_over(g: GameView, kind: Tetromino)
    requires
        g.stopped,
    ensures
        g.put_block(kind).stopped,
        g.remove_complete_lines().stopped,
        g.block_dropped(kind).stopped,
        g.down(kind).stopped,
        g.drop_down(kind).stopped,
        forall|b: BlockView| (#[trigger] g.try_move(b)).stopped,
{
}

/// One call of [`crate::game::Game::tick`] or of
/// [`crate::game::Game::key_pressed`] can lead from `pre` to `post`.
pub open spec fn step(pre: GameView, post: GameView) -> bool {
    ||| exists|now: int, kind: Tetromino| post == #[trigger] pre.tick(now, kind)
    ||| exists|key: Key, kind: Tetromino| post == #[trigger] pre.key_pressed(key, kind)
}

/// Each state of `trace` after the first comes from the state before it by
/// one step.
pub open spec fn play(trace: Seq<GameView>) -> bool
    decreases trace.len(),
{
    trace.len() <= 1 || (play(trace.drop_last()) && step(
        trace[trace.len() - 2],
        trace[trace.len() - 1],
    ))
}

/// Settling a piece on a well-formed field gives a well-formed state.
proof fn lemma_block_dropped_wf(g: GameView, kind: Tetromino)
    requires
        g.grid.wf(),
        g.score >= 0,
    ensures
        g.block_dropped(kind).wf(),
{
    let locked = GameView { grid: g.grid.locked(g.current), ..g };
    lemma_cleared(locked.grid);
    let settled = locked.remove_complete_lines();
    assert(settled.current.offsets =~= turned(Tetromino::X.spec_shape(), 0));
    lemma_spawn_alignment(kind, SPAWN_X as int, SPAWN_Y as int);
}

/// A tick leads from a well-formed state to a well-formed state, whatever
/// kind of piece is spawned.
pub proof fn lemma_tick_keeps_wf(g: GameView, now: int, kind: Tetromino)
    requires
        g.wf(),
    ensures
        g.tick(now, kind).wf(),
{
    lemma_spawn_alignment(kind, SPAWN_X as int, SPAWN_Y as int);
    lemma_block_dropped_wf(g, kind);
}

/// A key leads from a well-formed state to a well-formed state, whatever
/// kind of piece is spawned.
pub proof fn lemma_key_keeps_wf(g: GameView, key: Key, kind: Tetromino)
    requires
        g.wf(),
    ensures
        g.key_pressed(key, kind).wf(),
{
    lemma_rotated_wf(g.current, true);
    lemma_rotated_wf(g.current, false);
    lemma_block_dropped_wf(GameView { current: g.grid.landing(g.current), ..g }, kind);
}

/// Every state that the game can be in is well formed: a tick or a key leads
/// from a well-formed state to a well-formed state.
pub proof fn lemma_step_keeps_wf(pre: GameView, post: GameView)
    requires
        pre.wf(),
        step(pre, post),
    ensures
        post.wf(),
{
    if exists|now: int, kind: Tetromino| post == #[trigger] pre.tick(now, kind) {
        let (now, kind) = choose|now: int, kind: Tetromino| post == #[trigger] pre.tick(now, kind);
        lemma_tick_keeps_wf(pre, now, kind);
    } else {
        let (key, kind) = choose|key: Key, kind: Tetromino|
            post == #[trigger] pre.key_pressed(key, kind);
        lemma_key_keeps_wf(pre, key, kind);
    }
}

/// Once the game is over, ticks and keys change nothing; and no tick or key
/// takes points away.
pub proof fn lemma_step(pre: GameView, post: GameView)
    requires
        step(pre, post),
    ensures
        post.score >= pre.score,
        pre.stopped ==> post == pre,
{
    if exists|now: int, kind: Tetromino| post == #[trigger] pre.tick(now, kind) {
        let (now, kind) = choose|now: int, kind: Tetromino| post == #[trigger] pre.tick(now, kind);
        lemma_score_grows(pre, kind);
    } else {
        let (key, kind) = choose|key: Key, kind: Tetromino|
            post == #[trigger] pre.key_pressed(key, kind);
        lemma_score_grows(pre, kind);
    }
}

/// Over any sequence of ticks and keys, the score never goes down, and a
/// game that is over stays as it is.
pub proof fn lemma_play(trace: Seq<GameView>)
    requires
        trace.len() > 0,
        play(trace),
    ensures
        trace.last().score >= trace[0].score,
        trace[0].stopped ==> trace.last() == trace[0],
    decreases trace.len(),
{
    if trace.len() > 1 {
        let front = trace.drop_last();
        lemma_play(front);
        lemma_step(front.last(), trace.last());
    }
}

/// Every state that a sequence of ticks and keys reaches from a well-formed
/// state is well formed.
pub proof fn lemma_play_keeps_wf(trace: Seq<GameView>)
    requires
        trace.len() > 0,
        trace[0].wf(),
        play(trace),
    ensures
        trace.last().wf(),
    decreases trace.len(),
{
    if trace.len() > 1 {
        let front = trace.drop_last();
        lemma_play_keeps_wf(front);
        lemma_step_keeps_wf(front.last(), trace.last());
    }
}

} // verus!
