//! The field engine: a rectangular grid of typed cells with border walls,
//! randomly placed barriers and coins, and the player movement rules.

use vstd::prelude::*;

verus! {

use crate::render::{push_char, RefreshableComponent};
use vstd::pervasive::VecAdditionalExecFns;

/// The kind of content a single grid cell holds.
#[derive(Debug, PartialEq, Eq, Copy, Clone, Structural)]
pub enum FieldType {
    Space,
    Player,
    Barrier,
    Coin,
}

impl FieldType {
    /// The glyph a cell of this kind is drawn with.
    pub fn symbol(self) -> (c: char)
        ensures
            c == self.spec_symbol(),
    {
        match self {
            FieldType::Space => ' ',
            FieldType::Player => 'X',
            FieldType::Barrier => '#',
            FieldType::Coin => 'C',
        }
    }

    /// The glyph, at the specification level.
    pub open spec fn spec_symbol(self) -> char {
        match self {
            FieldType::Space => ' ',
            FieldType::Player => 'X',
            FieldType::Barrier => '#',
            FieldType::Coin => 'C',
        }
    }
}

/// Number of cells of kind `t` in `row` at column indices `[lo, hi)`.
pub open spec fn row_count(row: Seq<FieldType>, t: FieldType, lo: int, hi: int) -> int
    decreases hi - lo,
{
    if lo >= hi {
        0
    } else {
        (if row[lo] == t {
            1int
        } else {
            0int
        }) + row_count(row, t, lo + 1, hi)
    }
}

/// Number of cells of kind `t` in the rectangle of `g` spanned by row
/// indices `[rlo, rhi)` and column indices `[clo, chi)`.
pub open spec fn grid_count(
    g: Seq<Seq<FieldType>>,
    t: FieldType,
    rlo: int,
    rhi: int,
    clo: int,
    chi: int,
) -> int
    decreases rhi - rlo,
{
    if rlo >= rhi {
        0
    } else {
        row_count(g[rlo], t, clo, chi) + grid_count(g, t, rlo + 1, rhi, clo, chi)
    }
}

/// A row count is at least 0 and at most the width of the window.
pub proof fn lemma_row_count_bounds(row: Seq<FieldType>, t: FieldType, lo: int, hi: int)
    ensures
        0 <= row_count(row, t, lo, hi) <= if hi >= lo {
            hi - lo
        } else {
            0
        },
    decreases hi - lo,
{
    if lo < hi {
        lemma_row_count_bounds(row, t, lo + 1, hi);
    }
}

/// How a row count changes when one cell of the row is overwritten.
pub proof fn lemma_row_count_update(
    row: Seq<FieldType>,
    t: FieldType,
    lo: int,
    hi: int,
    i: int,
    v: FieldType,
)
    requires
        0 <= lo,
        hi <= row.len(),
        0 <= i < row.len(),
    ensures
        lo <= i < hi ==> row_count(row.update(i, v), t, lo, hi) == row_count(row, t, lo, hi) - (
        if row[i] == t {
            1int
        } else {
            0int
        }) + (if v == t {
            1int
        } else {
            0int
        }),
        !(lo <= i < hi) ==> row_count(row.update(i, v), t, lo, hi) == row_count(row, t, lo, hi),
    decreases hi - lo,
{
    if lo < hi {
        lemma_row_count_update(row, t, lo + 1, hi, i, v);
    }
}

/// How a rectangle count changes when one cell of the grid is overwritten.
/// `g` must be rectangular enough for the window to make sense.
pub proof fn lemma_grid_count_update(
    g: Seq<Seq<FieldType>>,
    t: FieldType,
    rlo: int,
    rhi: int,
    clo: int,
    chi: int,
    r: int,
    c: int,
    v: FieldType,
)
    requires
        0 <= rlo,
        rhi <= g.len(),
        0 <= r < g.len(),
        0 <= c < g[r].len(),
        0 <= clo,
        chi <= g[r].len(),
    ensures
        rlo <= r < rhi && clo <= c < chi ==> grid_count(
            g.update(r, g[r].update(c, v)),
            t,
            rlo,
            rhi,
            clo,
            chi,
        ) == grid_count(g, t, rlo, rhi, clo, chi) - (if g[r][c] == t {
            1int
        } else {
            0int
        }) + (if v == t {
            1int
        } else {
            0int
        }),
        !(rlo <= r < rhi && clo <= c < chi) ==> grid_count(
            g.update(r, g[r].update(c, v)),
            t,
            rlo,
            rhi,
            clo,
            chi,
        ) == grid_count(g, t, rlo, rhi, clo, chi),
    decreases rhi - rlo,
{
    if rlo < rhi {
        lemma_grid_count_update(g, t, rlo + 1, rhi, clo, chi, r, c, v);
        let g2 = g.update(r, g[r].update(c, v));
        if rlo == r {
            lemma_row_count_update(g[r], t, clo, chi, c, v);
            assert(g2[rlo] == g[r].update(c, v));
        } else {
            assert(g2[rlo] == g[rlo]);
        }
    }
}

/// A rectangle in which no cell is of kind `t` counts zero.
pub proof fn lemma_row_count_none(row: Seq<FieldType>, t: FieldType, lo: int, hi: int)
    requires
        0 <= lo,
        hi <= row.len(),
        forall|j: int| lo <= j < hi ==> row[j] != t,
    ensures
        row_count(row, t, lo, hi) == 0,
    decreases hi - lo,
{
    if lo < hi {
        lemma_row_count_none(row, t, lo + 1, hi);
    }
}

/// Grid version of [`lemma_row_count_none`].
pub proof fn lemma_grid_count_none(
    g: Seq<Seq<FieldType>>,
    t: FieldType,
    rlo: int,
    rhi: int,
    clo: int,
    chi: int,
)
    requires
        0 <= rlo,
        rhi <= g.len(),
        0 <= clo,
        forall|r: int| rlo <= r < rhi ==> chi <= (#[trigger] g[r]).len(),
        forall|r: int, j: int| rlo <= r < rhi && clo <= j < chi ==> #[trigger] g[r][j] != t,
    ensures
        grid_count(g, t, rlo, rhi, clo, chi) == 0,
    decreases rhi - rlo,
{
    if rlo < rhi {
        lemma_row_count_none(g[rlo], t, clo, chi);
        lemma_grid_count_none(g, t, rlo + 1, rhi, clo, chi);
    }
}

/// A rectangle count is never negative.
pub proof fn lemma_grid_count_nonneg(
    g: Seq<Seq<FieldType>>,
    t: FieldType,
    rlo: int,
    rhi: int,
    clo: int,
    chi: int,
)
    ensures
        grid_count(g, t, rlo, rhi, clo, chi) >= 0,
    decreases rhi - rlo,
{
    if rlo < rhi {
        lemma_row_count_bounds(g[rlo], t, clo, chi);
        lemma_grid_count_nonneg(g, t, rlo + 1, rhi, clo, chi);
    }
}

/// A row that holds a cell of kind `t` inside the window counts at least
/// one.
pub proof fn lemma_row_count_lower(row: Seq<FieldType>, t: FieldType, lo: int, hi: int, j: int)
    requires
        lo <= j < hi,
        row[j] == t,
    ensures
        row_count(row, t, lo, hi) >= 1,
    decreases hi - lo,
{
    lemma_row_count_bounds(row, t, lo + 1, hi);
    if lo < j {
        lemma_row_count_lower(row, t, lo + 1, hi, j);
        lemma_row_count_bounds(row, t, lo, lo + 1);
    }
}

/// A rectangle that holds a cell of kind `t` counts at least one.
pub proof fn lemma_grid_count_lower(
    g: Seq<Seq<FieldType>>,
    t: FieldType,
    rlo: int,
    rhi: int,
    clo: int,
    chi: int,
    r: int,
    c: int,
)
    requires
        rlo <= r < rhi,
        clo <= c < chi,
        g[r][c] == t,
    ensures
        grid_count(g, t, rlo, rhi, clo, chi) >= 1,
    decreases rhi - rlo,
{
    lemma_grid_count_nonneg(g, t, rlo + 1, rhi, clo, chi);
    if rlo < r {
        lemma_grid_count_lower(g, t, rlo + 1, rhi, clo, chi, r, c);
        lemma_row_count_bounds(g[rlo], t, clo, chi);
    } else {
        lemma_row_count_lower(g[rlo], t, clo, chi, c);
    }
}

/// A row count over a window is the sum of the counts over its two
/// halves.
pub proof fn lemma_row_count_split(row: Seq<FieldType>, t: FieldType, lo: int, mid: int, hi: int)
    requires
        lo <= mid <= hi,
    ensures
        row_count(row, t, lo, hi) == row_count(row, t, lo, mid) + row_count(row, t, mid, hi),
    decreases mid - lo,
{
    if lo < mid {
        lemma_row_count_split(row, t, lo + 1, mid, hi);
    }
}

/// A rectangle count is the sum of the counts of its upper and lower
/// parts.
pub proof fn lemma_grid_count_row_split(
    g: Seq<Seq<FieldType>>,
    t: FieldType,
    rlo: int,
    rmid: int,
    rhi: int,
    clo: int,
    chi: int,
)
    requires
        rlo <= rmid <= rhi,
    ensures
        grid_count(g, t, rlo, rhi, clo, chi) == grid_count(g, t, rlo, rmid, clo, chi) + grid_count(
            g,
            t,
            rmid,
            rhi,
            clo,
            chi,
        ),
    decreases rmid - rlo,
{
    if rlo < rmid {
        lemma_grid_count_row_split(g, t, rlo + 1, rmid, rhi, clo, chi);
    }
}

/// A rectangle count is the sum of the counts of its left and right
/// parts.
pub proof fn lemma_grid_count_col_split(
    g: Seq<Seq<FieldType>>,
    t: FieldType,
    rlo: int,
    rhi: int,
    clo: int,
    cmid: int,
    chi: int,
)
    requires
        clo <= cmid <= chi,
    ensures
        grid_count(g, t, rlo, rhi, clo, chi) == grid_count(g, t, rlo, rhi, clo, cmid) + grid_count(
            g,
            t,
            rlo,
            rhi,
            cmid,
            chi,
        ),
    decreases rhi - rlo,
{
    if rlo < rhi {
        lemma_row_count_split(g[rlo], t, clo, cmid, chi);
        lemma_grid_count_col_split(g, t, rlo + 1, rhi, clo, cmid, chi);
    }
}

/// Interior cell count of a grid with the given dimensions.
pub open spec fn interior_area(cols: int, rows: int) -> int {
    (cols - 2) * (rows - 2)
}

/// How many interior barriers initialisation places for the given
/// dimensions: a quarter of the interior cells that remain once the player
/// is placed, rounded down.
pub open spec fn spec_barrier_quota(cols: int, rows: int) -> int {
    (interior_area(cols, rows) - 1) / 4
}

/// How many interior cells stay free for coins after the player and the
/// barrier quota are placed.
pub open spec fn coin_capacity(cols: int, rows: int) -> int {
    interior_area(cols, rows) - 1 - spec_barrier_quota(cols, rows)
}

/// Why constructing or initialising a field failed.
#[derive(Debug, PartialEq, Eq, Copy, Clone, Structural)]
pub enum InitError {
    /// Fewer than four columns were requested.
    TooFewCols,
    /// Fewer than four rows were requested.
    TooFewRows,
    /// The coin quota exceeds the interior cells left after the player and
    /// the barriers are placed, so placement could never finish.
    CoinQuotaUnreachable,
}

/// Why a move request was rejected.
#[derive(Debug, PartialEq, Eq, Copy, Clone, Structural)]
pub enum MoveError {
    /// The target coordinate lies outside the grid.
    OutOfBounds,
    /// The target cell is impassable; carries the kind of the blocking cell.
    Blocked(FieldType),
}

/// No coordinate occurs twice in `s`.
pub open spec fn distinct_cells(s: Seq<(usize, usize)>) -> bool {
    forall|i: int, j: int| 0 <= i < j < s.len() ==> s[i] != s[j]
}

/// What removing index `idx` by a swap with the last element leaves behind:
/// still distinct coordinates, each of them one of the original entries and
/// none of them the removed one.
proof fn lemma_swap_remove_distinct(pre: Seq<(usize, usize)>, idx: int)
    requires
        0 <= idx < pre.len(),
        distinct_cells(pre),
    ensures
        distinct_cells(pre.update(idx, pre.last()).drop_last()),
        forall|j: int|
            0 <= j < pre.len() - 1 ==> pre.contains(
                #[trigger] pre.update(idx, pre.last()).drop_last()[j],
            ) && pre.update(idx, pre.last()).drop_last()[j] != pre[idx],
{
    let post = pre.update(idx, pre.last()).drop_last();
    assert forall|j: int| 0 <= j < pre.len() - 1 implies pre.contains(#[trigger] post[j])
        && post[j] != pre[idx] by {
        if j == idx {
            assert(post[j] == pre[pre.len() - 1]);
        } else {
            assert(post[j] == pre[j]);
        }
    }
    assert forall|i: int, j: int| 0 <= i < j < post.len() implies post[i] != post[j] by {
        if i == idx {
            assert(post[i] == pre[pre.len() - 1] && post[j] == pre[j]);
        } else if j == idx {
            assert(post[j] == pre[pre.len() - 1] && post[i] == pre[i]);
        } else {
            assert(post[i] == pre[i] && post[j] == pre[j]);
        }
    }
}

/// Relies on `rand::random_range`: a value drawn uniformly at random from
/// the given non-empty range, by the thread-local generator. Nothing more
/// is assumed of the draw than its bounds.
#[verifier::external_body]
fn random_in_range(lo: usize, hi: usize) -> (r: usize)
    requires
        lo < hi,
    ensures
        lo <= r < hi,
{
    rand::random_range(lo..hi)
}

/// The grid `g` with the cell at row `r`, column `c` replaced by `t`.
pub open spec fn grid_set(g: Seq<Seq<FieldType>>, r: int, c: int, t: FieldType) -> Seq<
    Seq<FieldType>,
> {
    g.update(r, g[r].update(c, t))
}

/// The play area: a `rows x cols` grid of typed cells and the current
/// player coordinate, in `(row, col)` order.
#[derive(Debug)]
pub struct GameField {
    pub cols: usize,
    pub rows: usize,
    pub gamefield: Vec<Vec<FieldType>>,
    pub player_pos: (usize, usize),
}

impl GameField {
    /// The grid as a mathematical sequence of rows.
    pub open spec fn grid(self) -> Seq<Seq<FieldType>> {
        Seq::new(self.gamefield@.len(), |r: int| self.gamefield@[r]@)
    }

    /// Shape well-formedness: dimensions above the minimum and within `u8`
    /// range, a rectangular buffer of matching size, and a player
    /// coordinate inside the grid.
    pub open spec fn wf(self) -> bool {
        &&& 3 < self.cols <= 255
        &&& 3 < self.rows <= 255
        &&& self.gamefield@.len() == self.rows
        &&& (forall|r: int|
            0 <= r < self.rows ==> (#[trigger] self.gamefield@[r])@.len() == self.cols)
        &&& self.player_pos.0 < self.rows
        &&& self.player_pos.1 < self.cols
    }

    /// Whether `(r, c)` is an interior coordinate, i.e. not on the border
    /// ring.
    pub open spec fn is_interior(self, r: int, c: int) -> bool {
        1 <= r < self.rows - 1 && 1 <= c < self.cols - 1
    }

    /// Number of interior cells of kind `t`.
    pub open spec fn interior_count(self, t: FieldType) -> int {
        grid_count(self.grid(), t, 1, self.rows - 1, 1, self.cols - 1)
    }

    /// Every cell of the outermost ring is a barrier.
    pub open spec fn border_all_barrier(self) -> bool {
        forall|r: int, c: int|
            0 <= r < self.rows && 0 <= c < self.cols && !self.is_interior(r, c)
                ==> #[trigger] self.grid()[r][c] == FieldType::Barrier
    }

    /// The cell at the player coordinate is the player token, and no other
    /// cell is.
    pub open spec fn player_token_unique(self) -> bool {
        &&& self.grid()[self.player_pos.0 as int][self.player_pos.1 as int] == FieldType::Player
        &&& (forall|r: int, c: int|
            0 <= r < self.rows && 0 <= c < self.cols && !(r == self.player_pos.0
                && c == self.player_pos.1) ==> #[trigger] self.grid()[r][c] != FieldType::Player)
    }

    /// The invariant of a field on which the game is in progress: a
    /// well-formed grid whose border ring is all barriers, with exactly one
    /// player token, standing in the interior at the recorded coordinate.
    pub open spec fn playing(self) -> bool {
        &&& self.wf()
        &&& self.border_all_barrier()
        &&& self.is_interior(self.player_pos.0 as int, self.player_pos.1 as int)
        &&& self.player_token_unique()
    }

    /// How many interior barriers `init` places: a quarter of the interior
    /// cells that remain once the player is placed, rounded down.
    pub open spec fn barrier_quota(self) -> int {
        spec_barrier_quota(self.cols as int, self.rows as int)
    }

    /// Every cell of the grid is `Space`.
    pub open spec fn all_space(self) -> bool {
        forall|r: int, c: int|
            0 <= r < self.rows && 0 <= c < self.cols ==> #[trigger] self.grid()[r][c]
                == FieldType::Space
    }

    /// Reads one cell.
    pub fn get_cell(&self, r: usize, c: usize) -> (t: FieldType)
        requires
            r < self.gamefield@.len(),
            c < self.gamefield@[r as int]@.len(),
        ensures
            t == self.grid()[r as int][c as int],
    {
        self.gamefield[r][c]
    }

    /// Overwrites one cell, leaving everything else as it was.
    fn set_cell(&mut self, r: usize, c: usize, t: FieldType)
        requires
            r < old(self).gamefield@.len(),
            c < old(self).gamefield@[r as int]@.len(),
        ensures
            final(self).grid() == grid_set(old(self).grid(), r as int, c as int, t),
            final(self).cols == old(self).cols,
            final(self).rows == old(self).rows,
            final(self).player_pos == old(self).player_pos,
            final(self).gamefield@.len() == old(self).gamefield@.len(),
            forall|i: int|
                0 <= i < old(self).gamefield@.len() ==> (#[trigger] final(self).gamefield@[i])@.len()
                    == old(self).gamefield@[i]@.len(),
    {
        let row = &mut self.gamefield[r];
        row.set(c, t);
        proof {
            assert(self.grid() =~~= grid_set(old(self).grid(), r as int, c as int, t));
        }
    }

    /// Getter for [`Self::rows`].
    pub fn rows(&self) -> (r: usize)
        ensures
            r == self.rows,
    {
        self.rows
    }

    /// Getter for [`Self::cols`].
    pub fn cols(&self) -> (c: usize)
        ensures
            c == self.cols,
    {
        self.cols
    }

    /// Getter for [`Self::player_pos`].
    pub fn player_pos(&self) -> (p: (usize, usize))
        ensures
            p == self.player_pos,
    {
        self.player_pos
    }

    /// Moves the player token to `target`, given in `(row, col)` order.
    ///
    /// A coordinate outside the grid is rejected with
    /// [`MoveError::OutOfBounds`]; a barrier cell rejects the move with
    /// [`MoveError::Blocked`] and leaves the field untouched. Every other
    /// target accepts the move: the vacated cell becomes `Space`, the
    /// target cell becomes `Player`, and the kind the target held before
    /// being overwritten is returned, so that a caller can detect a coin
    /// pickup.
    pub fn move_player_to(&mut self, target: (usize, usize)) -> (res: Result<FieldType, MoveError>)
        requires
            old(self).wf(),
        ensures
            final(self).cols == old(self).cols,
            final(self).rows == old(self).rows,
            final(self).wf(),
            target.0 >= old(self).rows || target.1 >= old(self).cols ==> res == Err::<
                FieldType,
                MoveError,
            >(MoveError::OutOfBounds) && *final(self) == *old(self),
            target.0 < old(self).rows && target.1 < old(self).cols && old(self).grid()[target.0 as int][target.1 as int]
                == FieldType::Barrier ==> res == Err::<FieldType, MoveError>(
                MoveError::Blocked(FieldType::Barrier),
            ) && *final(self) == *old(self),
            target.0 < old(self).rows && target.1 < old(self).cols && old(self).grid()[target.0 as int][target.1 as int]
                != FieldType::Barrier ==> {
                &&& res == Ok::<FieldType, MoveError>(
                    old(self).grid()[target.0 as int][target.1 as int],
                )
                &&& final(self).player_pos == target
                &&& final(self).grid() == grid_set(
                    grid_set(
                        old(self).grid(),
                        old(self).player_pos.0 as int,
                        old(self).player_pos.1 as int,
                        FieldType::Space,
                    ),
                    target.0 as int,
                    target.1 as int,
                    FieldType::Player,
                )
            },
            old(self).playing() && (res matches Ok(_)) ==> {
                &&& final(self).playing()
                &&& final(self).interior_count(FieldType::Coin) == old(self).interior_count(
                    FieldType::Coin,
                ) - (if old(self).grid()[target.0 as int][target.1 as int] == FieldType::Coin {
                    1int
                } else {
                    0int
                })
                &&& final(self).interior_count(FieldType::Barrier) == old(self).interior_count(
                    FieldType::Barrier,
                )
            },
    {
        let (row, col) = target;
        if row >= self.rows || col >= self.cols {
            return Err(MoveError::OutOfBounds);
        }
        let next_field = self.get_cell(row, col);
        if next_field != FieldType::Barrier {
            let (prow, pcol) = self.player_pos;
            self.set_cell(prow, pcol, FieldType::Space);
            self.player_pos = (row, col);
            self.set_cell(row, col, FieldType::Player);
            proof {
                if old(self).playing() {
                    self.lemma_move_preserves_playing(*old(self), target);
                }
            }
            Ok(next_field)
        } else {
            Err(MoveError::Blocked(next_field))
        }
    }

    /// Initialises a freshly allocated field, in this order: the border
    /// ring is stamped with barriers, a uniformly random interior cell
    /// becomes the player, then the barrier quota and finally `coin_target`
    /// coins are placed on interior cells drawn uniformly at random from
    /// the cells still free.
    ///
    /// Fails, leaving the field untouched, when the coin quota could never
    /// be met because fewer free cells remain than coins are requested.
    pub fn init(&mut self, coin_target: usize) -> (res: Result<(), InitError>)
        requires
            old(self).wf(),
            old(self).all_space(),
        ensures
            final(self).cols == old(self).cols,
            final(self).rows == old(self).rows,
            coin_target > coin_capacity(old(self).cols as int, old(self).rows as int) ==> res
                == Err::<(), InitError>(InitError::CoinQuotaUnreachable) && *final(self) == *old(
                self,
            ),
            coin_target <= coin_capacity(old(self).cols as int, old(self).rows as int) ==> {
                &&& res == Ok::<(), InitError>(())
                &&& final(self).playing()
                &&& final(self).interior_count(FieldType::Barrier) == final(self).barrier_quota()
                &&& final(self).interior_count(FieldType::Coin) == coin_target
            },
    {
        proof {
            assert((self.cols - 2) * (self.rows - 2) <= 253 * 253 && (self.cols - 2) * (self.rows
                - 2) >= 4) by (nonlinear_arith)
                requires
                    2 <= self.cols - 2 <= 253,
                    2 <= self.rows - 2 <= 253,
            ;
        }
        let usable = (self.cols - 2) * (self.rows - 2);
        let quota = (usable - 1) / 4;
        assert(quota <= usable - 1);
        if coin_target > usable - 1 - quota {
            return Err(InitError::CoinQuotaUnreachable);
        }
        self.init_game_borders();
        let mut free = self.collect_interior_cells();
        // Interior cells are untouched by the border pass, so every listed
        // cell is still free.
        assert(forall|i: int|
            0 <= i < free@.len() ==> self.grid()[(#[trigger] free@[i]).0 as int][free@[i].1 as int]
                == FieldType::Space);
        let ghost free_pre = free@;
        let ghost before_player = *self;
        let idx = random_in_range(0, free.len());
        let cell = free.swap_remove(idx);
        let (prow, pcol) = cell;
        self.set_cell(prow, pcol, FieldType::Player);
        self.player_pos = (prow, pcol);
        proof {
            lemma_swap_remove_distinct(free_pre, idx as int);
            assert forall|i: int| 0 <= i < free@.len() implies self.grid()[(#[trigger] free@[i]).0 as int][free@[i].1 as int]
                == FieldType::Space by {
                assert(free_pre.contains(free@[i]));
                let k = choose|k: int| 0 <= k < free_pre.len() && free_pre[k] == free@[i];
            }
            assert forall|i: int| 0 <= i < free@.len() implies self.is_interior(
                (#[trigger] free@[i]).0 as int,
                free@[i].1 as int,
            ) by {
                assert(free_pre.contains(free@[i]));
                let k = choose|k: int| 0 <= k < free_pre.len() && free_pre[k] == free@[i];
            }
            assert forall|r: int, c: int|
                0 <= r < self.rows && 0 <= c < self.cols && !(r == self.player_pos.0 && c
                    == self.player_pos.1) implies #[trigger] self.grid()[r][c]
                != FieldType::Player by {
                if before_player.is_interior(r, c) {
                    assert(self.grid()[r][c] == FieldType::Space);
                } else {
                    assert(self.grid()[r][c] == FieldType::Barrier);
                }
            }
            assert(self.playing());
            lemma_grid_count_none(self.grid(), FieldType::Barrier, 1, self.rows - 1, 1, self.cols
                - 1);
            lemma_grid_count_none(self.grid(), FieldType::Coin, 1, self.rows - 1, 1, self.cols - 1);
        }
        self.place_random(FieldType::Barrier, quota, &mut free);
        self.place_random(FieldType::Coin, coin_target, &mut free);
        Ok(())
    }

    /// Stamps the outermost ring of the grid with barriers, leaving every
    /// interior cell as it was.
    fn init_game_borders(&mut self)
        requires
            old(self).wf(),
        ensures
            final(self).wf(),
            final(self).cols == old(self).cols,
            final(self).rows == old(self).rows,
            final(self).player_pos == old(self).player_pos,
            final(self).border_all_barrier(),
            forall|r: int, c: int|
                old(self).is_interior(r, c) ==> #[trigger] final(self).grid()[r][c] == old(
                    self,
                ).grid()[r][c],
    {
        let rows = self.rows;
        let cols = self.cols;
        for col_i in 0..cols
            invariant
                self.wf(),
                rows == self.rows,
                cols == self.cols,
                self.player_pos == old(self).player_pos,
                forall|c: int|
                    0 <= c < col_i ==> #[trigger] self.grid()[0][c] == FieldType::Barrier
                        && self.grid()[rows - 1][c] == FieldType::Barrier,
                forall|r: int, c: int|
                    0 < r < rows - 1 && 0 <= c < cols ==> #[trigger] self.grid()[r][c] == old(
                        self,
                    ).grid()[r][c],
        {
            self.set_cell(0, col_i, FieldType::Barrier);
            self.set_cell(rows - 1, col_i, FieldType::Barrier);
        }
        for row_i in 0..rows
            invariant
                self.wf(),
                rows == self.rows,
                cols == self.cols,
                self.player_pos == old(self).player_pos,
                forall|c: int|
                    0 <= c < cols ==> #[trigger] self.grid()[0][c] == FieldType::Barrier
                        && self.grid()[rows - 1][c] == FieldType::Barrier,
                forall|r: int|
                    0 <= r < row_i ==> #[trigger] self.grid()[r][0] == FieldType::Barrier
                        && self.grid()[r][cols - 1] == FieldType::Barrier,
                forall|r: int, c: int|
                    0 < r < rows - 1 && 0 < c < cols - 1 ==> #[trigger] self.grid()[r][c] == old(
                        self,
                    ).grid()[r][c],
        {
            self.set_cell(row_i, 0, FieldType::Barrier);
            self.set_cell(row_i, cols - 1, FieldType::Barrier);
        }
        proof {
            assert forall|r: int, c: int|
                0 <= r < self.rows && 0 <= c < self.cols && !self.is_interior(r, c) implies #[trigger] self.grid()[r][c]
                == FieldType::Barrier by {
                if r == 0 {
                    assert(self.grid()[0][c] == FieldType::Barrier);
                } else if r == rows - 1 {
                    assert(self.grid()[rows - 1][c] == FieldType::Barrier);
                } else if c == 0 {
                    assert(self.grid()[r][0] == FieldType::Barrier);
                } else {
                    assert(self.grid()[r][cols - 1] == FieldType::Barrier);
                }
            }
        }
    }

    /// Collects every interior coordinate of the grid, each exactly once.
    fn collect_interior_cells(&self) -> (free: Vec<(usize, usize)>)
        requires
            self.wf(),
        ensures
            free@.len() == (self.cols - 2) * (self.rows - 2),
            distinct_cells(free@),
            forall|i: int|
                0 <= i < free@.len() ==> self.is_interior(
                    (#[trigger] free@[i]).0 as int,
                    free@[i].1 as int,
                ),
    {
        let rows = self.rows;
        let cols = self.cols;
        let mut free: Vec<(usize, usize)> = Vec::new();
        let mut r: usize = 1;
        while r < rows - 1
            invariant
                3 < cols <= 255,
                3 < rows <= 255,
                1 <= r <= rows - 1,
                free@.len() == (r - 1) * (cols - 2),
                distinct_cells(free@),
                forall|i: int|
                    0 <= i < free@.len() ==> 1 <= (#[trigger] free@[i]).0 < rows - 1 && 1
                        <= free@[i].1 < cols - 1,
                forall|i: int| 0 <= i < free@.len() ==> (#[trigger] free@[i]).0 < r,
            decreases rows - 1 - r,
        {
            let mut c: usize = 1;
            while c < cols - 1
                invariant
                    3 < cols <= 255,
                    3 < rows <= 255,
                    1 <= r <= rows - 2,
                    1 <= c <= cols - 1,
                    free@.len() == (r - 1) * (cols - 2) + (c - 1),
                    distinct_cells(free@),
                    forall|i: int|
                        0 <= i < free@.len() ==> 1 <= (#[trigger] free@[i]).0 < rows - 1 && 1
                            <= free@[i].1 < cols - 1,
                    forall|i: int|
                        0 <= i < free@.len() ==> (#[trigger] free@[i]).0 < r || (free@[i].0 == r
                            && free@[i].1 < c),
                decreases cols - 1 - c,
            {
                free.push((r, c));
                c = c + 1;
            }
            proof {
                assert((r - 1) * (cols - 2) + (cols - 2) == (r + 1 - 1) * (cols - 2))
                    by (nonlinear_arith);
            }
            r = r + 1;
        }
        proof {
            assert((rows - 2) * (cols - 2) == (cols - 2) * (rows - 2)) by (nonlinear_arith);
        }
        free
    }

    /// Turns `quota` cells drawn uniformly at random from `free` into cells
    /// of kind `t`, removing each drawn coordinate from `free`.
    fn place_random(&mut self, t: FieldType, quota: usize, free: &mut Vec<(usize, usize)>)
        requires
            old(self).playing(),
            t != FieldType::Space,
            t != FieldType::Player,
            quota <= old(free)@.len(),
            distinct_cells(old(free)@),
            forall|i: int|
                0 <= i < old(free)@.len() ==> old(self).is_interior(
                    (#[trigger] old(free)@[i]).0 as int,
                    old(free)@[i].1 as int,
                ),
            forall|i: int|
                0 <= i < old(free)@.len() ==> old(self).grid()[(#[trigger] old(free)@[i]).0 as int][old(free)@[i].1 as int]
                    == FieldType::Space,
        ensures
            final(self).playing(),
            final(self).cols == old(self).cols,
            final(self).rows == old(self).rows,
            final(self).player_pos == old(self).player_pos,
            final(free)@.len() == old(free)@.len() - quota,
            distinct_cells(final(free)@),
            forall|i: int|
                0 <= i < final(free)@.len() ==> final(self).is_interior(
                    (#[trigger] final(free)@[i]).0 as int,
                    final(free)@[i].1 as int,
                ),
            forall|i: int|
                0 <= i < final(free)@.len() ==> final(self).grid()[(#[trigger] final(free)@[i]).0 as int][final(free)@[i].1 as int]
                    == FieldType::Space,
            final(self).interior_count(t) == old(self).interior_count(t) + quota,
            forall|t2: FieldType|
                t2 != t && t2 != FieldType::Space ==> final(self).interior_count(t2) == old(
                    self,
                ).interior_count(t2),
    {
        let mut placed: usize = 0;
        while placed < quota
            invariant
                self.playing(),
                t != FieldType::Space,
                t != FieldType::Player,
                quota <= old(free)@.len(),
                placed <= quota,
                self.cols == old(self).cols,
                self.rows == old(self).rows,
                self.player_pos == old(self).player_pos,
                free@.len() == old(free)@.len() - placed,
                distinct_cells(free@),
                forall|i: int|
                    0 <= i < free@.len() ==> self.is_interior(
                        (#[trigger] free@[i]).0 as int,
                        free@[i].1 as int,
                    ),
                forall|i: int|
                    0 <= i < free@.len() ==> self.grid()[(#[trigger] free@[i]).0 as int][free@[i].1 as int]
                        == FieldType::Space,
                self.interior_count(t) == old(self).interior_count(t) + placed,
                forall|t2: FieldType|
                    t2 != t && t2 != FieldType::Space ==> self.interior_count(t2) == old(
                        self,
                    ).interior_count(t2),
            decreases quota - placed,
        {
            let ghost prev = *self;
            let ghost prev_free = free@;
            let idx = random_in_range(0, free.len());
            let cell = free.swap_remove(idx);
            let (r, c) = cell;
            self.set_cell(r, c, t);
            placed = placed + 1;
            proof {
                lemma_swap_remove_distinct(prev_free, idx as int);
                lemma_grid_count_update(
                    prev.grid(),
                    t,
                    1,
                    prev.rows - 1,
                    1,
                    prev.cols - 1,
                    r as int,
                    c as int,
                    t,
                );
                assert forall|t2: FieldType| t2 != t && t2 != FieldType::Space implies
                    self.interior_count(t2) == old(self).interior_count(t2) by {
                    lemma_grid_count_update(
                        prev.grid(),
                        t2,
                        1,
                        prev.rows - 1,
                        1,
                        prev.cols - 1,
                        r as int,
                        c as int,
                        t,
                    );
                }
                assert forall|i: int| 0 <= i < free@.len() implies self.grid()[(#[trigger] free@[i]).0 as int][free@[i].1 as int]
                    == FieldType::Space by {
                    assert(prev_free.contains(free@[i]));
                    let k = choose|k: int| 0 <= k < prev_free.len() && prev_free[k] == free@[i];
                    assert(prev.grid()[free@[i].0 as int][free@[i].1 as int] == FieldType::Space);
                }
                assert forall|i: int| 0 <= i < free@.len() implies self.is_interior(
                    (#[trigger] free@[i]).0 as int,
                    free@[i].1 as int,
                ) by {
                    assert(prev_free.contains(free@[i]));
                    let k = choose|k: int| 0 <= k < prev_free.len() && prev_free[k] == free@[i];
                }
                assert(self.playing());
            }
        }
    }

    /// The detailed bookkeeping behind a successful move out of a playing
    /// field: the invariant is preserved, the coin count drops exactly when
    /// a coin was overrun, and the barrier count never changes.
    proof fn lemma_move_preserves_playing(self, pre: GameField, target: (usize, usize))
        requires
            pre.playing(),
            target.0 < pre.rows,
            target.1 < pre.cols,
            pre.grid()[target.0 as int][target.1 as int] != FieldType::Barrier,
            self.cols == pre.cols,
            self.rows == pre.rows,
            self.player_pos == target,
            self.gamefield@.len() == pre.gamefield@.len(),
            forall|i: int|
                0 <= i < pre.gamefield@.len() ==> (#[trigger] self.gamefield@[i])@.len()
                    == pre.gamefield@[i]@.len(),
            self.grid() == grid_set(
                grid_set(
                    pre.grid(),
                    pre.player_pos.0 as int,
                    pre.player_pos.1 as int,
                    FieldType::Space,
                ),
                target.0 as int,
                target.1 as int,
                FieldType::Player,
            ),
        ensures
            self.playing(),
            self.interior_count(FieldType::Coin) == pre.interior_count(FieldType::Coin) - (
            if pre.grid()[target.0 as int][target.1 as int] == FieldType::Coin {
                1int
            } else {
                0int
            }),
            self.interior_count(FieldType::Barrier) == pre.interior_count(FieldType::Barrier),
    {
        let g0 = pre.grid();
        let pr = pre.player_pos.0 as int;
        let pc = pre.player_pos.1 as int;
        let tr = target.0 as int;
        let tc = target.1 as int;
        let g1 = grid_set(g0, pr, pc, FieldType::Space);
        let g2 = grid_set(g1, tr, tc, FieldType::Player);
        // The target is not on the border ring, because every border cell
        // is a barrier and the target is not.
        assert(pre.is_interior(tr, tc));
        lemma_grid_count_update(g0, FieldType::Coin, 1, pre.rows - 1, 1, pre.cols - 1, pr, pc,
            FieldType::Space);
        lemma_grid_count_update(g1, FieldType::Coin, 1, pre.rows - 1, 1, pre.cols - 1, tr, tc,
            FieldType::Player);
        lemma_grid_count_update(g0, FieldType::Barrier, 1, pre.rows - 1, 1, pre.cols - 1, pr, pc,
            FieldType::Space);
        lemma_grid_count_update(g1, FieldType::Barrier, 1, pre.rows - 1, 1, pre.cols - 1, tr, tc,
            FieldType::Player);
        if tr == pr && tc == pc {
            assert(g1[tr][tc] == FieldType::Space);
            assert(g0[tr][tc] == FieldType::Player);
        } else {
            assert(g1[tr][tc] == g0[tr][tc]);
        }
        assert(self.playing());
    }

    /// Allocates a `rows x cols` grid of `Space` cells. Fails if either
    /// dimension is too small to leave an interior behind the border ring.
    pub fn new(cols: u8, rows: u8) -> (res: Result<GameField, InitError>)
        ensures
            cols <= 3 ==> res == Err::<GameField, InitError>(InitError::TooFewCols),
            cols > 3 && rows <= 3 ==> res == Err::<GameField, InitError>(InitError::TooFewRows),
            cols > 3 && rows > 3 ==> {
                &&& res matches Ok(f)
                &&& f.wf()
                &&& f.cols == cols
                &&& f.rows == rows
                &&& f.player_pos == (0usize, 0usize)
                &&& f.all_space()
            },
    {
        if cols <= 3 {
            return Err(InitError::TooFewCols);
        }
        if rows <= 3 {
            return Err(InitError::TooFewRows);
        }
        let cols: usize = cols as usize;
        let rows: usize = rows as usize;
        let mut gamefield: Vec<Vec<FieldType>> = Vec::new();
        for _r in 0..rows
            invariant
                gamefield@.len() == _r,
                forall|i: int|
                    0 <= i < _r ==> (#[trigger] gamefield@[i])@ == Seq::new(
                        cols as nat,
                        |j: int| FieldType::Space,
                    ),
        {
            let mut row: Vec<FieldType> = Vec::new();
            for _c in 0..cols
                invariant
                    row@.len() == _c,
                    forall|j: int| 0 <= j < _c ==> #[trigger] row@[j] == FieldType::Space,
            {
                row.push(FieldType::Space);
            }
            assert(row@ =~= Seq::new(cols as nat, |j: int| FieldType::Space));
            gamefield.push(row);
        }
        let f = GameField { cols, rows, gamefield, player_pos: (0, 0) };
        assert forall|r: int, c: int|
            0 <= r < f.rows && 0 <= c < f.cols implies #[trigger] f.grid()[r][c]
            == FieldType::Space by {
            assert(f.grid()[r] == f.gamefield@[r]@);
        }
        Ok(f)
    }
}

/// On a field whose border ring is all barriers, every cell of any other
/// kind is interior: counting the whole grid and counting only the
/// interior agree. In particular, after initialisation the stated interior
/// coin and player counts are the counts over the entire grid.
pub proof fn lemma_interior_count_is_total(f: GameField, t: FieldType)
    requires
        f.wf(),
        f.border_all_barrier(),
        t != FieldType::Barrier,
    ensures
        grid_count(f.grid(), t, 0, f.rows as int, 0, f.cols as int) == f.interior_count(t),
{
    let g = f.grid();
    let rows = f.rows as int;
    let cols = f.cols as int;
    lemma_grid_count_row_split(g, t, 0, 1, rows, 0, cols);
    lemma_grid_count_row_split(g, t, 1, rows - 1, rows, 0, cols);
    lemma_grid_count_none(g, t, 0, 1, 0, cols);
    lemma_grid_count_none(g, t, rows - 1, rows, 0, cols);
    lemma_grid_count_col_split(g, t, 1, rows - 1, 0, 1, cols);
    lemma_grid_count_col_split(g, t, 1, rows - 1, 1, cols - 1, cols);
    lemma_grid_count_none(g, t, 1, rows - 1, 0, 1);
    lemma_grid_count_none(g, t, 1, rows - 1, cols - 1, cols);
}

/// A field in play holds exactly one player token, counted over the
/// entire grid.
pub proof fn lemma_exactly_one_player(f: GameField)
    requires
        f.playing(),
    ensures
        grid_count(f.grid(), FieldType::Player, 0, f.rows as int, 0, f.cols as int) == 1,
{
    let g = f.grid();
    let rows = f.rows as int;
    let cols = f.cols as int;
    let pr = f.player_pos.0 as int;
    let pc = f.player_pos.1 as int;
    let g2 = grid_set(g, pr, pc, FieldType::Space);
    lemma_grid_count_update(g, FieldType::Player, 0, rows, 0, cols, pr, pc, FieldType::Space);
    assert forall|r: int, c: int| 0 <= r < rows && 0 <= c < cols implies #[trigger] g2[r][c]
        != FieldType::Player by {
        if r == pr && c == pc {
            assert(g2[r][c] == FieldType::Space);
        } else {
            assert(g2[r][c] == g[r][c]);
        }
    }
    lemma_grid_count_none(g2, FieldType::Player, 0, rows, 0, cols);
}

/// One grid row as the glyphs it is drawn with.
pub open spec fn row_chars(row: Seq<FieldType>) -> Seq<char> {
    row.map_values(|t: FieldType| t.spec_symbol())
}

/// The glyph lines of the rows of `g` from index `i` on, each line closed
/// by a newline.
pub open spec fn render_rows(g: Seq<Seq<FieldType>>, i: int) -> Seq<char>
    decreases g.len() - i,
{
    if i < 0 || i >= g.len() {
        Seq::<char>::empty()
    } else {
        row_chars(g[i]) + seq!['\n'] + render_rows(g, i + 1)
    }
}

impl RefreshableComponent for GameField {
    open spec fn render_wf(&self) -> bool {
        self.wf()
    }

    open spec fn render_chars(&self) -> Seq<char> {
        render_rows(self.grid(), 0)
    }

    open spec fn cols_offset(&self) -> int {
        self.cols as int
    }

    open spec fn rows_offset(&self) -> int {
        self.rows as int
    }

    fn after_print_cols_offset(&self) -> (n: u16)
        ensures
            n as int == self.cols_offset(),
    {
        self.cols as u16
    }

    fn after_print_rows_offset(&self) -> (n: u16)
        ensures
            n as int == self.rows_offset(),
    {
        self.rows as u16
    }

    fn print(&self) -> (out: String)
        ensures
            out@ == self.render_chars(),
    {
        let rows = self.rows;
        let cols = self.cols;
        let mut out = String::new();
        proof {
            assert(Seq::<char>::empty() + render_rows(self.grid(), 0) =~= render_rows(
                self.grid(),
                0,
            ));
        }
        let mut r: usize = 0;
        while r < rows
            invariant
                self.wf(),
                rows == self.rows,
                cols == self.cols,
                r <= rows,
                render_rows(self.grid(), 0) == out@ + render_rows(self.grid(), r as int),
            decreases rows - r,
        {
            let ghost row_start = out@;
            let mut c: usize = 0;
            proof {
                assert(out@ =~= row_start + row_chars(self.grid()[r as int]).subrange(0, 0));
            }
            while c < cols
                invariant
                    self.wf(),
                    rows == self.rows,
                    cols == self.cols,
                    r < rows,
                    c <= cols,
                    out@ == row_start + row_chars(self.grid()[r as int]).subrange(0, c as int),
                decreases cols - c,
            {
                let cell = self.get_cell(r, c);
                push_char(&mut out, cell.symbol());
                proof {
                    assert(out@ =~= row_start + row_chars(self.grid()[r as int]).subrange(
                        0,
                        c + 1,
                    ));
                }
                c = c + 1;
            }
            push_char(&mut out, '\n');
            proof {
                assert(row_chars(self.grid()[r as int]).subrange(0, cols as int) =~= row_chars(
                    self.grid()[r as int],
                ));
                assert(out@ =~= row_start + row_chars(self.grid()[r as int]) + seq!['\n']);
                assert(render_rows(self.grid(), 0) =~= out@ + render_rows(self.grid(), r + 1));
            }
            r = r + 1;
        }
        proof {
            assert(out@ + render_rows(self.grid(), rows as int) =~= out@);
        }
        out
    }
}

} // verus!
