//! The game controller: composes the field engine and the coin tracker
//! behind the operations an input loop calls, and reports every move's
//! outcome so a caller can schedule feedback effects.

use vstd::prelude::*;

verus! {

use crate::field::{
    coin_capacity,
    grid_set,
    lemma_grid_count_lower,
    lemma_grid_count_nonneg,
    spec_barrier_quota,
    FieldType,
    GameField,
    InitError,
    MoveError,
};
use crate::render::{reset_cursor_chars, RefreshableComponent};
use crate::state::GameState;

/// How many coins a standard game places and requires for the win.
pub const COIN_COUNT: usize = 17;

/// What a single move request came to; a caller schedules haptic feedback
/// from this signal.
#[derive(Debug, PartialEq, Eq, Copy, Clone, Structural)]
pub enum MoveOutcome {
    /// The player moved onto a free cell.
    Moved,
    /// The player moved onto a coin cell and the coin was collected.
    CoinCollected,
    /// A barrier blocked the move; nothing changed.
    BarrierHit,
}

/// A running game: the field, the coin tracker, and whether the very
/// first paint is still outstanding.
#[derive(Debug)]
pub struct Game {
    pub state: GameState,
    pub field: GameField,
    pub is_initial_refresh: bool,
}

/// How one move relates the game before it to the game after it: a
/// barrier leaves everything unchanged and signals the hit; any other
/// target cell receives the player token, the vacated cell becomes space,
/// and the collected count grows exactly when the target held a coin.
pub open spec fn move_spec(pre: Game, post: Game, o: MoveOutcome, target: (usize, usize)) -> bool {
    let t = pre.field.grid()[target.0 as int][target.1 as int];
    &&& post.is_initial_refresh == pre.is_initial_refresh
    &&& post.state.coin_target == pre.state.coin_target
    &&& post.state.cols == pre.state.cols
    &&& post.field.cols == pre.field.cols
    &&& post.field.rows == pre.field.rows
    &&& if t == FieldType::Barrier {
        &&& o == MoveOutcome::BarrierHit
        &&& post.field == pre.field
        &&& post.state == pre.state
    } else {
        &&& o == if t == FieldType::Coin {
            MoveOutcome::CoinCollected
        } else {
            MoveOutcome::Moved
        }
        &&& post.field.player_pos == target
        &&& post.field.grid() == grid_set(
            grid_set(
                pre.field.grid(),
                pre.field.player_pos.0 as int,
                pre.field.player_pos.1 as int,
                FieldType::Space,
            ),
            target.0 as int,
            target.1 as int,
            FieldType::Player,
        )
        &&& post.state.coins == pre.state.coins + (if t == FieldType::Coin {
            1int
        } else {
            0int
        })
    }
}

impl Game {
    /// The controller invariant: the field is in play, the tracker's
    /// column width matches the field, and every coin is either still on
    /// the field or already collected — never both, never neither.
    pub open spec fn inv(self) -> bool {
        &&& self.field.playing()
        &&& self.state.coins + self.field.interior_count(FieldType::Coin)
            == self.state.coin_target
        &&& self.state.cols == self.field.cols
    }

    /// Builds and initialises a game on a `rows x cols` field that holds
    /// `coin_target` coins.
    pub fn new(cols: u8, rows: u8, coin_target: usize) -> (res: Result<Game, InitError>)
        ensures
            cols <= 3 ==> res == Err::<Game, InitError>(InitError::TooFewCols),
            cols > 3 && rows <= 3 ==> res == Err::<Game, InitError>(InitError::TooFewRows),
            cols > 3 && rows > 3 && coin_target > coin_capacity(cols as int, rows as int) ==> res
                == Err::<Game, InitError>(InitError::CoinQuotaUnreachable),
            cols > 3 && rows > 3 && coin_target <= coin_capacity(cols as int, rows as int) ==> {
                &&& res matches Ok(g)
                &&& g.inv()
                &&& g.is_initial_refresh
                &&& g.state.coins == 0
                &&& g.state.coin_target == coin_target
                &&& g.field.cols == cols
                &&& g.field.rows == rows
                &&& g.field.interior_count(FieldType::Barrier) == spec_barrier_quota(
                    cols as int,
                    rows as int,
                )
                &&& g.field.interior_count(FieldType::Coin) == coin_target
            },
    {
        let mut field = match GameField::new(cols, rows) {
            Ok(f) => f,
            Err(e) => {
                return Err(e);
            },
        };
        match field.init(coin_target) {
            Ok(_) => {},
            Err(e) => {
                return Err(e);
            },
        }
        Ok(Game { state: GameState::new(cols, coin_target), field, is_initial_refresh: true })
    }

    /// Performs one move to an in-bounds target and maps its result to
    /// the outcome signal, collecting a coin when one was overrun.
    fn do_move(&mut self, target: (usize, usize)) -> (o: MoveOutcome)
        requires
            old(self).inv(),
            target.0 < old(self).field.rows,
            target.1 < old(self).field.cols,
        ensures
            final(self).inv(),
            move_spec(*old(self), *final(self), o, target),
    {
        let ghost pre = *self;
        let res = self.field.move_player_to(target);
        proof {
            if pre.field.grid()[target.0 as int][target.1 as int] == FieldType::Coin {
                // The overrun coin is interior, so at least one coin was
                // still on the field and the collected count is below the
                // target.
                lemma_grid_count_lower(
                    pre.field.grid(),
                    FieldType::Coin,
                    1,
                    pre.field.rows - 1,
                    1,
                    pre.field.cols - 1,
                    target.0 as int,
                    target.1 as int,
                );
            }
        }
        self.inc_if_necessary(res)
    }

    /// Maps a move result to the outcome signal and books a collected
    /// coin.
    fn inc_if_necessary(&mut self, res: Result<FieldType, MoveError>) -> (o: MoveOutcome)
        requires
            res != Err::<FieldType, MoveError>(MoveError::OutOfBounds),
            res == Ok::<FieldType, MoveError>(FieldType::Coin) ==> old(self).state.coins
                < usize::MAX,
        ensures
            final(self).field == old(self).field,
            final(self).is_initial_refresh == old(self).is_initial_refresh,
            final(self).state.coin_target == old(self).state.coin_target,
            final(self).state.cols == old(self).state.cols,
            res matches Ok(t) ==> o == (if t == FieldType::Coin {
                MoveOutcome::CoinCollected
            } else {
                MoveOutcome::Moved
            }) && final(self).state.coins == old(self).state.coins + (if t == FieldType::Coin {
                1int
            } else {
                0int
            }),
            res matches Err(e) ==> o == MoveOutcome::BarrierHit && final(self).state == old(
                self,
            ).state,
    {
        match res {
            Ok(field) => {
                if field == FieldType::Coin {
                    self.state.coins_inc();
                    MoveOutcome::CoinCollected
                } else {
                    MoveOutcome::Moved
                }
            },
            Err(_) => MoveOutcome::BarrierHit,
        }
    }

    /// Moves the player one cell up.
    pub fn move_player_up(&mut self) -> (o: MoveOutcome)
        requires
            old(self).inv(),
        ensures
            final(self).inv(),
            move_spec(
                *old(self),
                *final(self),
                o,
                ((old(self).field.player_pos.0 - 1) as usize, old(self).field.player_pos.1),
            ),
    {
        let next_pos = (self.field.player_pos().0 - 1, self.field.player_pos().1);
        self.do_move(next_pos)
    }

    /// Moves the player one cell down.
    pub fn move_player_down(&mut self) -> (o: MoveOutcome)
        requires
            old(self).inv(),
        ensures
            final(self).inv(),
            move_spec(
                *old(self),
                *final(self),
                o,
                ((old(self).field.player_pos.0 + 1) as usize, old(self).field.player_pos.1),
            ),
    {
        let next_pos = (self.field.player_pos().0 + 1, self.field.player_pos().1);
        self.do_move(next_pos)
    }

    /// Moves the player one cell to the left.
    pub fn move_player_left(&mut self) -> (o: MoveOutcome)
        requires
            old(self).inv(),
        ensures
            final(self).inv(),
            move_spec(
                *old(self),
                *final(self),
                o,
                (old(self).field.player_pos.0, (old(self).field.player_pos.1 - 1) as usize),
            ),
    {
        let next_pos = (self.field.player_pos().0, self.field.player_pos().1 - 1);
        self.do_move(next_pos)
    }

    /// Moves the player one cell to the right.
    pub fn move_player_right(&mut self) -> (o: MoveOutcome)
        requires
            old(self).inv(),
        ensures
            final(self).inv(),
            move_spec(
                *old(self),
                *final(self),
                o,
                (old(self).field.player_pos.0, (old(self).field.player_pos.1 + 1) as usize),
            ),
    {
        let next_pos = (self.field.player_pos().0, self.field.player_pos().1 + 1);
        self.do_move(next_pos)
    }

    /// Whether every coin has been collected.
    pub fn won(&self) -> (w: bool)
        ensures
            w == (self.state.coins == self.state.coin_target),
    {
        self.state.won()
    }

    /// The bytes one full repaint emits: on the very first paint just the
    /// banner and the grid; on every later one, first the cursor resets
    /// that undo the previous paint's displacement.
    pub open spec fn refresh_chars(self) -> Seq<char> {
        if self.is_initial_refresh {
            self.state.render_chars() + self.field.render_chars()
        } else {
            reset_cursor_chars(self.state.cols_offset(), self.state.rows_offset())
                + reset_cursor_chars(self.field.cols_offset(), self.field.rows_offset())
                + self.state.render_chars() + self.field.render_chars()
        }
    }

    /// Repaints the banner and the grid in place, returning the bytes to
    /// write to the terminal.
    pub fn refresh(&mut self) -> (out: String)
        requires
            old(self).inv(),
        ensures
            out@ == old(self).refresh_chars(),
            final(self).state == old(self).state,
            final(self).field == old(self).field,
            final(self).is_initial_refresh == false,
            final(self).inv(),
    {
        let mut out = String::new();
        if self.is_initial_refresh {
            self.is_initial_refresh = false;
        } else {
            let r1 = self.state.reset_cursor();
            out.append(r1.as_str());
            let r2 = self.field.reset_cursor();
            out.append(r2.as_str());
        }
        let p1 = self.state.print();
        out.append(p1.as_str());
        let p2 = self.field.print();
        out.append(p2.as_str());
        proof {
            assert(out@ =~= old(self).refresh_chars());
        }
        out
    }

    /// Getter for the field's column count.
    pub fn cols(&self) -> (c: usize)
        ensures
            c == self.field.cols,
    {
        self.field.cols()
    }
}

/// Repainting in place is idempotent: a refresh leaves the game it drew
/// unchanged once the first paint is behind it, so painting the same game
/// again emits byte-identical output.
pub proof fn lemma_refresh_idempotent(pre: Game, mid: Game)
    requires
        !pre.is_initial_refresh,
        mid.state == pre.state,
        mid.field == pre.field,
        mid.is_initial_refresh == false,
    ensures
        mid.refresh_chars() == pre.refresh_chars(),
{
}

/// The game is won exactly when no coin cell is left on the field, and
/// the collected count never exceeds the target.
pub proof fn lemma_won_iff_no_coins(g: Game)
    requires
        g.inv(),
    ensures
        (g.state.coins == g.state.coin_target) <==> (g.field.interior_count(FieldType::Coin)
            == 0),
        g.state.coins <= g.state.coin_target,
{
    lemma_grid_count_nonneg(
        g.field.grid(),
        FieldType::Coin,
        1,
        g.field.rows - 1,
        1,
        g.field.cols - 1,
    );
}

/// Once won, always won: a won game has no coin cells left, so no further
/// move can change the collected count.
pub proof fn lemma_won_stays_won(pre: Game, post: Game, o: MoveOutcome, target: (usize, usize))
    requires
        pre.inv(),
        target.0 < pre.field.rows,
        target.1 < pre.field.cols,
        move_spec(pre, post, o, target),
        pre.state.coins == pre.state.coin_target,
    ensures
        post.state.coins == post.state.coin_target,
{
    let t = pre.field.grid()[target.0 as int][target.1 as int];
    if t == FieldType::Coin {
        // A coin cell cannot be on the border ring, and an interior coin
        // contradicts the conservation invariant of a won game.
        assert(pre.field.is_interior(target.0 as int, target.1 as int));
        lemma_grid_count_lower(
            pre.field.grid(),
            FieldType::Coin,
            1,
            pre.field.rows - 1,
            1,
            pre.field.cols - 1,
            target.0 as int,
            target.1 as int,
        );
        lemma_grid_count_nonneg(
            pre.field.grid(),
            FieldType::Coin,
            1,
            pre.field.rows - 1,
            1,
            pre.field.cols - 1,
        );
        assert(false);
    }
}

} // verus!
