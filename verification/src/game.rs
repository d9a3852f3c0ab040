//! The match model: snakes, food pellets, and the tick that advances them.
//!
//! `Board` holds everything the rules read; the renderer keeps its sprites
//! index-parallel to `Snake::cells` and `Board::foods` and mirrors the changes
//! that each tick reports.
use vstd::prelude::*;

use std::collections::VecDeque;

use crate::achievements::{AchievementId, food_achievements, food_unlocks};
use crate::chaos::{ChaosMode, food_count, ridiculous_family, walls_wrap};
use crate::grid::{Cell, Direction, GRID_CELLS, GRID_COLS, GRID_ROWS, cell_in_bounds};
use crate::rules::{
    GameResult, StepOutcome, VersusStep, apart, body_after, body_cell, body_fits,
    lemma_index_cell_of, lemma_queue_after_turn_shrinks, lemma_step_keeps_the_body,
    lemma_survivors_stay_apart,
    lemma_versus_step_keeps_the_body, next_direction, next_direction_spec, place_food_at,
    place_food_spec,
    queue_after_turn, resolve_versus_step, starting_body, step_snake, step_spec, versus_outcome,
    versus_result, versus_result_spec, versus_spawn, versus_spawn_spec,
};

verus! {

/// Length of a freshly spawned snake.
pub const START_LENGTH: usize = 3;

/// Buffered turns waiting to be applied (two turns ahead).
pub const INPUT_QUEUE_CAP: usize = 2;

/// Points per pellet eaten.
pub const FOOD_POINTS: u32 = 10;

/// How many snakes share the grid.
#[derive(Clone, Copy, Debug, PartialEq, Eq, Structural)]
pub enum GameMode {
    /// One snake driven by both players' controls.
    SinglePlayer,
    /// Two snakes on one grid; first death ends the round.
    TwoPlayerVersus,
}

/// One snake's rule state. `cells` holds the body, head first.
pub struct Snake {
    pub cells: VecDeque<Cell>,
    pub direction: Direction,
    /// Turns waiting to apply, one per tick (at most `INPUT_QUEUE_CAP`).
    pub input_queue: VecDeque<Direction>,
    pub score: u32,
    pub foods_eaten: u32,
    /// Cleared the tick this snake dies; a dead snake's cells stay put.
    pub alive: bool,
}

/// All cells of `s` lie inside the playfield.
pub open spec fn all_in_bounds(s: Seq<Cell>) -> bool {
    forall|i: int| 0 <= i < s.len() ==> cell_in_bounds(#[trigger] s[i])
}

/// A distinct sequence of in-bounds cells is no longer than the board.
pub proof fn lemma_distinct_cells_fit_the_board(s: Seq<Cell>)
    requires
        s.no_duplicates(),
        all_in_bounds(s),
    ensures
        s.len() <= GRID_CELLS,
{
    let f = |c: Cell| c.y * GRID_COLS + c.x;
    let m = s.map_values(f);
    assert forall|i: int, j: int| 0 <= i < m.len() && 0 <= j < m.len() && i != j implies m[i]
        != m[j] by {
        lemma_index_cell_of(s[i]);
        lemma_index_cell_of(s[j]);
    }
    assert(m.no_duplicates());
    m.unique_seq_to_set();
    vstd::set_lib::lemma_int_range(0, GRID_CELLS as int);
    assert forall|k: int| m.to_set().contains(k) implies vstd::set_lib::set_int_range(
        0,
        GRID_CELLS as int,
    ).contains(k) by {
        let i = choose|i: int| 0 <= i < m.len() && m[i] == k;
        lemma_index_cell_of(s[i]);
    }
    vstd::set_lib::lemma_len_subset(m.to_set(), vstd::set_lib::set_int_range(0, GRID_CELLS as int));
}

impl Snake {
    /// The rule invariant of a snake in play: its length and score follow from
    /// the meals eaten, its body cells are distinct and on the field, and at
    /// most `INPUT_QUEUE_CAP` turns wait.
    pub open spec fn wf(&self) -> bool {
        &&& self.cells@.len() == START_LENGTH + self.foods_eaten
        &&& self.score == FOOD_POINTS * self.foods_eaten
        &&& self.cells@.no_duplicates()
        &&& all_in_bounds(self.cells@)
        &&& self.input_queue@.len() <= INPUT_QUEUE_CAP
    }

    /// A snake with its head at `head` moving `direction`, the body trailing
    /// opposite the heading: no score, no meals, no queued turns, alive.
    pub fn new(head: Cell, direction: Direction) -> (s: Snake)
        requires
            body_fits(head, direction, START_LENGTH),
        ensures
            s.cells@.len() == START_LENGTH,
            forall|i: int| 0 <= i < START_LENGTH ==> s.cells@[i] == body_cell(head, direction, i),
            s.direction == direction,
            s.input_queue@.len() == 0,
            s.score == 0,
            s.foods_eaten == 0,
            s.alive,
    {
        let body = starting_body(head, direction, START_LENGTH);
        let mut cells: VecDeque<Cell> = VecDeque::new();
        let mut i: usize = 0;
        while i < body.len()
            invariant
                0 <= i <= body@.len(),
                cells@ == body@.take(i as int),
            decreases body@.len() - i,
        {
            cells.push_back(body[i]);
            assert(cells@ =~= body@.take(i + 1));
            i = i + 1;
        }
        assert(cells@ =~= body@);
        Snake {
            cells,
            direction,
            input_queue: VecDeque::new(),
            score: 0,
            foods_eaten: 0,
            alive: true,
        }
    }

    /// Buffer a just-pressed turn. A dead snake takes no turns; the queue holds
    /// at most `INPUT_QUEUE_CAP` turns and only takes a turn that differs from
    /// the one before it, so holding a direction doesn't flood the buffer.
    pub fn queue_turn(&mut self, dir: Direction)
        ensures
            final(self).cells@ == old(self).cells@,
            final(self).direction == old(self).direction,
            final(self).score == old(self).score,
            final(self).foods_eaten == old(self).foods_eaten,
            final(self).alive == old(self).alive,
            final(self).input_queue@ == (if old(self).alive && old(self).input_queue@.len()
                < INPUT_QUEUE_CAP && (old(self).input_queue@.len() == 0
                || old(self).input_queue@.last() != dir) {
                old(self).input_queue@.push(dir)
            } else {
                old(self).input_queue@
            }),
    {
        let n = self.input_queue.len();
        if self.alive && n < INPUT_QUEUE_CAP && (n == 0 || self.input_queue[n - 1] != dir) {
            self.input_queue.push_back(dir);
        }
    }

    /// Apply the first applicable buffered turn (see `next_direction`).
    pub fn take_turn(&mut self)
        ensures
            final(self).direction == next_direction_spec(
                old(self).direction,
                old(self).input_queue@,
            ),
            final(self).input_queue@ == queue_after_turn(
                old(self).direction,
                old(self).input_queue@,
            ),
            final(self).cells@ == old(self).cells@,
            final(self).score == old(self).score,
            final(self).foods_eaten == old(self).foods_eaten,
            final(self).alive == old(self).alive,
    {
        let d = next_direction(self.direction, &mut self.input_queue);
        self.direction = d;
    }
}


/// How many snakes a mode puts on the grid.
pub open spec fn snake_count(mode: GameMode) -> nat {
    match mode {
        GameMode::SinglePlayer => 1,
        GameMode::TwoPlayerVersus => 2,
    }
}

/// Every body cell of `snakes`, snake by snake, each head first.
pub open spec fn all_snake_cells(snakes: Seq<Snake>) -> Seq<Cell>
    decreases snakes.len(),
{
    if snakes.len() == 0 {
        Seq::empty()
    } else {
        all_snake_cells(snakes.drop_last()) + snakes.last().cells@
    }
}

/// Whether `c` is a body cell of one of `snakes`.
pub open spec fn on_a_snake(snakes: Seq<Snake>, c: Cell) -> bool {
    exists|i: int| 0 <= i < snakes.len() && (#[trigger] snakes[i]).cells@.contains(c)
}

/// The flattened body cells hold exactly the cells that lie on some snake.
pub proof fn lemma_all_snake_cells(snakes: Seq<Snake>, c: Cell)
    ensures
        all_snake_cells(snakes).contains(c) <==> on_a_snake(snakes, c),
    decreases snakes.len(),
{
    if snakes.len() > 0 {
        let init = snakes.drop_last();
        lemma_all_snake_cells(init, c);
        let whole = all_snake_cells(snakes);
        assert(whole == all_snake_cells(init) + snakes.last().cells@);
        if on_a_snake(snakes, c) {
            let i = choose|i: int| 0 <= i < snakes.len() && (#[trigger] snakes[i]).cells@.contains(c);
            if i == snakes.len() - 1 {
                let k = choose|k: int| 0 <= k < snakes.last().cells@.len() && snakes.last().cells@[k] == c;
                assert(whole[all_snake_cells(init).len() + k] == c);
            } else {
                assert(init[i] == snakes[i]);
                assert(on_a_snake(init, c));
                let k = choose|k: int| 0 <= k < all_snake_cells(init).len() && all_snake_cells(init)[k] == c;
                assert(whole[k] == c);
            }
        }
        if whole.contains(c) {
            let k = choose|k: int| 0 <= k < whole.len() && whole[k] == c;
            if k < all_snake_cells(init).len() {
                assert(all_snake_cells(init).contains(c));
                let i = choose|i: int| 0 <= i < init.len() && (#[trigger] init[i]).cells@.contains(c);
                assert(snakes[i] == init[i]);
            } else {
                assert(snakes.last().cells@[k - all_snake_cells(init).len()] == c);
                assert(snakes[snakes.len() - 1].cells@.contains(c));
            }
        }
    }
}

/// A snake that just grew onto a pellet whose meal is not yet recorded: one
/// cell longer than its meal count says, otherwise well formed.
pub open spec fn grown(s: Snake) -> bool {
    &&& s.cells@.len() == START_LENGTH + s.foods_eaten + 1
    &&& s.score == FOOD_POINTS * s.foods_eaten
    &&& s.cells@.no_duplicates()
    &&& all_in_bounds(s.cells@)
    &&& s.input_queue@.len() <= INPUT_QUEUE_CAP
}

/// Pellet `f` lies on no snake, except on the head of a snake that grew onto
/// it this tick.
pub open spec fn food_clear(snakes: Seq<Snake>, f: Cell) -> bool {
    forall|j: int, k: int|
        0 <= j < snakes.len() && 0 <= k < snakes[j].cells@.len() && (#[trigger] snakes[j].cells@[k])
            == f ==> k == 0 && grown(snakes[j])
}

/// `s` with its `k`-th element replaced by the last one and the last dropped.
pub open spec fn swap_removed(s: Seq<Cell>, k: int) -> Seq<Cell> {
    s.update(k, s.last()).drop_last()
}

/// A pellet eaten this tick: which snake ate it and where, the index in
/// `Board::foods` it was removed from (by `swap_remove`), and the pellets then
/// appended to `Board::foods`, in order.
pub struct Meal {
    pub snake: usize,
    pub cell: Cell,
    pub removed_food: usize,
    pub added_foods: Vec<Cell>,
}

/// The pellets after replaying `meals` in order on `foods`: each meal removes
/// its pellet by `swap_remove` and appends the pellets it placed.
pub open spec fn replay_meals(foods: Seq<Cell>, meals: Seq<Meal>) -> Seq<Cell>
    decreases meals.len(),
{
    if meals.len() == 0 {
        foods
    } else {
        replay_meals(
            swap_removed(foods, meals[0].removed_food as int) + meals[0].added_foods@,
            meals.drop_first(),
        )
    }
}

/// Each meal of `meals`, replayed in order on `foods`, removes the pellet at
/// its own cell.
pub open spec fn meals_remove_their_pellets(foods: Seq<Cell>, meals: Seq<Meal>) -> bool
    decreases meals.len(),
{
    meals.len() > 0 ==> {
        &&& meals[0].removed_food < foods.len()
        &&& foods[meals[0].removed_food as int] == meals[0].cell
        &&& meals_remove_their_pellets(
            swap_removed(foods, meals[0].removed_food as int) + meals[0].added_foods@,
            meals.drop_first(),
        )
    }
}

/// Which snake ate which pellet in a versus tick, snake 0 first.
pub open spec fn versus_meals(a: VersusStep, b: VersusStep) -> Seq<(usize, Cell)> {
    (match a {
        VersusStep::Ate(h) => seq![(0usize, h)],
        _ => Seq::empty(),
    }) + (match b {
        VersusStep::Ate(h) => seq![(1usize, h)],
        _ => Seq::empty(),
    })
}

/// `t` is snake `s` after a versus step `step` taken heading `d`: the turn
/// consumed from its queue, its body per `body_after`, a meal scored, a death
/// recorded.
pub open spec fn snake_after(s: Snake, t: Snake, d: Direction, step: VersusStep) -> bool {
    &&& t.direction == d
    &&& t.input_queue@ == queue_after_turn(s.direction, s.input_queue@)
    &&& t.cells@ == body_after(s.cells@, step)
    &&& t.alive == (s.alive && !(step is Died))
    &&& t.score == (if step is Ate { s.score + FOOD_POINTS } else { s.score as int })
    &&& t.foods_eaten == (if step is Ate { s.foods_eaten + 1 } else { s.foods_eaten as int })
}

/// `s` is a freshly spawned snake with its head at `head` moving `d`.
pub open spec fn fresh_snake(s: Snake, head: Cell, d: Direction) -> bool {
    &&& s.cells@ == seq![body_cell(head, d, 0), body_cell(head, d, 1), body_cell(head, d, 2)]
    &&& s.direction == d
    &&& s.input_queue@.len() == 0
    &&& s.score == 0
    &&& s.foods_eaten == 0
    &&& s.alive
}

/// The single-player snake's spawn: mid-field, heading right.
pub open spec fn solo_spawn() -> (Cell, Direction) {
    (Cell { x: 13, y: 8 }, Direction::Right)
}

/// Total meals over `snakes`.
pub open spec fn meals_total(snakes: Seq<Snake>) -> int
    decreases snakes.len(),
{
    if snakes.len() == 0 {
        0
    } else {
        meals_total(snakes.drop_last()) + snakes.last().foods_eaten
    }
}

/// What one grid tick did: the pellets eaten, in the order their bookkeeping
/// ran, and the round result when the tick ended the round.
pub struct TickReport {
    pub meals: Vec<Meal>,
    pub result: Option<GameResult>,
}

/// One single-player tick from `pre` to `post` reporting `r`: the first
/// applicable buffered turn is taken, the snake steps per `step_spec`, a meal
/// is scored and the board topped back up, a death clears `alive` and ends
/// the round with a `Solo` result.
pub open spec fn single_tick<H: Fn(u32) -> u32>(hash: H, pre: Board, post: Board, r: TickReport) -> bool {
    let s = pre.snakes@[0];
    let t = post.snakes@[0];
    let d = next_direction_spec(s.direction, s.input_queue@);
    let (out, cells) = step_spec(
        s.cells@,
        d,
        pre.foods@,
        ridiculous_family(pre.chaos_mode),
    );
    &&& t.direction == d
    &&& t.input_queue@ == queue_after_turn(s.direction, s.input_queue@)
    &&& t.cells@ == cells
    &&& match out {
        StepOutcome::Died(c) => {
            &&& !t.alive
            &&& t.score == s.score
            &&& t.foods_eaten == s.foods_eaten
            &&& post.foods@ == pre.foods@
            &&& r.meals@.len() == 0
            &&& r.result == Some(GameResult::Solo(c))
        },
        StepOutcome::Moved => {
            &&& t.alive == s.alive
            &&& t.score == s.score
            &&& t.foods_eaten == s.foods_eaten
            &&& post.foods@ == pre.foods@
            &&& r.meals@.len() == 0
            &&& r.result is None
        },
        StepOutcome::Ate(h) => {
            &&& t.alive == s.alive
            &&& t.score == s.score + FOOD_POINTS
            &&& t.foods_eaten == s.foods_eaten + 1
            &&& r.meals@.len() == 1
            &&& r.meals@[0].snake == 0
            &&& r.meals@[0].cell == h
            &&& r.meals@[0].removed_food < pre.foods@.len()
            &&& pre.foods@[r.meals@[0].removed_food as int] == h
            &&& post.foods@ == swap_removed(
                pre.foods@,
                r.meals@[0].removed_food as int,
            ) + r.meals@[0].added_foods@
            &&& meal_placed(
                hash,
                post.snakes@,
                pre.foods@,
                pre.frame_count,
                r.meals@[0],
            )
            &&& topped_up(post)
            &&& r.result is None
        },
    }
}

/// One versus tick from `pre` to `post` reporting `r`: both snakes take
/// their buffered turns and resolve per `versus_outcome` from the pre-step
/// board, survivors advance, meals are booked snake 0 first and replayed onto
/// the pellets (a board that saw a meal is topped back up), and the round
/// result is `versus_result_spec` of both steps.
pub open spec fn versus_tick<H: Fn(u32) -> u32>(hash: H, pre: Board, post: Board, r: TickReport) -> bool {
    let s0 = pre.snakes@[0];
    let s1 = pre.snakes@[1];
    let d0 = next_direction_spec(s0.direction, s0.input_queue@);
    let d1 = next_direction_spec(s1.direction, s1.input_queue@);
    let wrap = ridiculous_family(pre.chaos_mode);
    let st0 = versus_outcome(s0.cells@, d0, s1.cells@, d1, pre.foods@, wrap);
    let st1 = versus_outcome(s1.cells@, d1, s0.cells@, d0, pre.foods@, wrap);
    &&& snake_after(s0, post.snakes@[0], d0, st0)
    &&& snake_after(s1, post.snakes@[1], d1, st1)
    &&& r.meals@.map_values(|m: Meal| (m.snake, m.cell)) == versus_meals(st0, st1)
    &&& meals_remove_their_pellets(pre.foods@, r.meals@)
    &&& post.foods@ == replay_meals(pre.foods@, r.meals@)
    &&& meals_placed(
        hash,
        post.snakes@,
        pre.foods@,
        pre.frame_count,
        r.meals@,
    )
    &&& r.meals@.len() > 0 ==> topped_up(post)
    &&& r.result == versus_result_spec(st0, st1)
}

/// The board holds the mode's pellet count, or every free cell holds a pellet.
pub open spec fn topped_up(b: Board) -> bool {
    b.foods@.len() == food_count_spec(b.chaos_mode) || forall|c: Cell|
        cell_in_bounds(c) ==> on_a_snake(b.snakes@, c) || b.foods@.contains(c)
}

/// The shared playfield: one or two snakes and the food pellets.
pub struct Board {
    /// One or two snakes sharing the grid (as many as `mode` asks for).
    pub snakes: Vec<Snake>,
    /// Food pellets shared by every snake on the board.
    pub foods: Vec<Cell>,
    pub mode: GameMode,
    pub chaos_mode: ChaosMode,
    /// Frames since launch; seeds food placement.
    pub frame_count: u32,
}

impl Board {
    /// The rule invariant of a board in play: as many snakes as the mode asks
    /// for, each well formed, at most the mode's pellet count of distinct
    /// in-bounds pellets that lie on no snake, and two live versus snakes that
    /// share no cell.
    pub open spec fn wf(&self) -> bool {
        &&& self.snakes@.len() == snake_count(self.mode)
        &&& forall|i: int| 0 <= i < self.snakes@.len() ==> (#[trigger] self.snakes@[i]).wf()
        &&& self.foods@.len() <= food_count_spec(self.chaos_mode)
        &&& self.foods@.no_duplicates()
        &&& all_in_bounds(self.foods@)
        &&& forall|j: int|
            0 <= j < self.foods@.len() ==> !on_a_snake(self.snakes@, #[trigger] self.foods@[j])
        &&& self.mode == GameMode::TwoPlayerVersus && self.snakes@[0].alive
            && self.snakes@[1].alive ==> apart(self.snakes@[0].cells@, self.snakes@[1].cells@)
    }

    /// An empty board: no snakes, no food, frame 0.
    pub fn new(mode: GameMode, chaos_mode: ChaosMode) -> (b: Board)
        ensures
            b.snakes@.len() == 0,
            b.foods@.len() == 0,
            b.mode == mode,
            b.chaos_mode == chaos_mode,
            b.frame_count == 0,
    {
        Board { snakes: Vec::new(), foods: Vec::new(), mode, chaos_mode, frame_count: 0 }
    }

    /// Every snake cell, snake by snake, followed by every food cell.
    pub fn occupied_cells(&self) -> (v: Vec<Cell>)
        ensures
            v@ == all_snake_cells(self.snakes@) + self.foods@,
    {
        let mut v: Vec<Cell> = Vec::new();
        let mut i: usize = 0;
        while i < self.snakes.len()
            invariant
                0 <= i <= self.snakes@.len(),
                v@ == all_snake_cells(self.snakes@.take(i as int)),
            decreases self.snakes@.len() - i,
        {
            let cells = &self.snakes[i].cells;
            let ghost before = v@;
            let mut k: usize = 0;
            while k < cells.len()
                invariant
                    0 <= k <= cells@.len(),
                    v@ == before + cells@.take(k as int),
                decreases cells@.len() - k,
            {
                v.push(cells[k]);
                assert(v@ =~= before + cells@.take(k + 1));
                k = k + 1;
            }
            assert(self.snakes@.take(i + 1).drop_last() =~= self.snakes@.take(i as int));
            assert(v@ =~= all_snake_cells(self.snakes@.take(i + 1)));
            i = i + 1;
        }
        assert(self.snakes@.take(self.snakes@.len() as int) =~= self.snakes@);
        let ghost snake_part = v@;
        let mut j: usize = 0;
        while j < self.foods.len()
            invariant
                0 <= j <= self.foods@.len(),
                v@ == snake_part + self.foods@.take(j as int),
            decreases self.foods@.len() - j,
        {
            v.push(self.foods[j]);
            assert(v@ =~= snake_part + self.foods@.take(j + 1));
            j = j + 1;
        }
        assert(self.foods@.take(self.foods@.len() as int) =~= self.foods@);
        v
    }

    /// The index of `cell` in `foods`.
    fn food_index(&self, cell: Cell) -> (k: usize)
        requires
            self.foods@.contains(cell),
        ensures
            k < self.foods@.len(),
            self.foods@[k as int] == cell,
    {
        let mut k: usize = 0;
        while k < self.foods.len()
            invariant
                0 <= k <= self.foods@.len(),
                self.foods@.contains(cell),
                forall|j: int| 0 <= j < k ==> self.foods@[j] != cell,
            decreases self.foods@.len() - k,
        {
            if self.foods[k] == cell {
                return k;
            }
            k = k + 1;
        }
        proof {
            let j = choose|j: int| 0 <= j < self.foods@.len() && self.foods@[j] == cell;
            assert(self.foods@[j] != cell);
        }
        0
    }

    /// Bookkeeping after snake `i`'s head grew onto the pellet at `cell`: score
    /// the meal, remove the eaten pellet, and top the board back up.
    fn finish_meal(&mut self, i: usize, cell: Cell, hash: &impl Fn(u32) -> u32) -> (m: Meal)
        requires
            forall|x: u32| hash.requires((x,)),
            i < old(self).snakes@.len(),
            grown(old(self).snakes@[i as int]),
            old(self).snakes@[i as int].cells@[0] == cell,
            forall|j: int|
                0 <= j < old(self).snakes@.len() && j != i ==> (#[trigger] old(self).snakes@[j]).wf()
                    || (grown(old(self).snakes@[j]) && old(self).snakes@[j].cells@[0] != cell),
            old(self).foods@.contains(cell),
            old(self).foods@.len() <= food_count_spec(old(self).chaos_mode),
            old(self).foods@.no_duplicates(),
            all_in_bounds(old(self).foods@),
            forall|f: int|
                0 <= f < old(self).foods@.len() ==> food_clear(
                    old(self).snakes@,
                    #[trigger] old(self).foods@[f],
                ),
        ensures
            final(self).snakes@.len() == old(self).snakes@.len(),
            final(self).mode == old(self).mode,
            final(self).chaos_mode == old(self).chaos_mode,
            final(self).frame_count == old(self).frame_count,
            forall|j: int|
                0 <= j < final(self).snakes@.len() && j != i ==> #[trigger] final(self).snakes@[j]
                    == old(self).snakes@[j],
            final(self).snakes@[i as int].wf(),
            final(self).snakes@[i as int].cells@ == old(self).snakes@[i as int].cells@,
            final(self).snakes@[i as int].direction == old(self).snakes@[i as int].direction,
            final(self).snakes@[i as int].input_queue@ == old(self).snakes@[i as int].input_queue@,
            final(self).snakes@[i as int].alive == old(self).snakes@[i as int].alive,
            final(self).snakes@[i as int].score == old(self).snakes@[i as int].score + FOOD_POINTS,
            final(self).snakes@[i as int].foods_eaten == old(self).snakes@[i as int].foods_eaten
                + 1,
            m.snake == i,
            m.cell == cell,
            m.removed_food < old(self).foods@.len(),
            old(self).foods@[m.removed_food as int] == cell,
            final(self).foods@ == swap_removed(old(self).foods@, m.removed_food as int)
                + m.added_foods@,
            final(self).foods@.no_duplicates(),
            all_in_bounds(final(self).foods@),
            forall|f: int|
                0 <= f < final(self).foods@.len() ==> food_clear(
                    final(self).snakes@,
                    #[trigger] final(self).foods@[f],
                ),
            forall|k: int|
                0 <= k < m.added_foods@.len() ==> !on_a_snake(
                    final(self).snakes@,
                    #[trigger] m.added_foods@[k],
                ),
            meal_placed(*hash, final(self).snakes@, old(self).foods@, final(self).frame_count, m),
            final(self).foods@.len() <= food_count_spec(final(self).chaos_mode),
            topped_up(*final(self)),
    {
        let ghost s0 = self.snakes@[i as int];
        proof {
            lemma_distinct_cells_fit_the_board(s0.cells@);
        }
        self.snakes[i].score = self.snakes[i].score + FOOD_POINTS;
        self.snakes[i].foods_eaten = self.snakes[i].foods_eaten + 1;
        let k = self.food_index(cell);
        let ghost before = self.foods@;
        self.foods.swap_remove(k);
        let ghost removed = self.foods@;
        proof {
            assert(removed =~= swap_removed(before, k as int));
            assert forall|a: int, b: int| 0 <= a < b < removed.len() implies removed[a]
                != removed[b] by {
                if a == k {
                    assert(removed[a] == before[before.len() - 1]);
                } else if b == k {
                    assert(removed[b] == before[before.len() - 1]);
                }
            }
            assert forall|f: int| 0 <= f < removed.len() implies food_clear(
                self.snakes@,
                #[trigger] removed[f],
            ) && removed[f] != cell by {
                let g = if f == k { before.len() - 1 } else { f };
                assert(removed[f] == before[g]);
                assert(food_clear(old(self).snakes@, before[g]));
                assert(g != k);
                assert forall|j: int, q: int|
                    0 <= j < self.snakes@.len() && 0 <= q < self.snakes@[j].cells@.len() && (
                    #[trigger] self.snakes@[j].cells@[q]) == removed[f] implies q == 0 && grown(
                    self.snakes@[j],
                ) by {
                    assert(old(self).snakes@[j].cells@[q] == removed[f]);
                    if j == i {
                        assert(q == 0);
                        assert(false);
                    }
                }
            }
        }
        let added = self.spawn_missing_food(hash);
        proof {
            assert forall|f: int| 0 <= f < self.foods@.len() implies food_clear(
                self.snakes@,
                #[trigger] self.foods@[f],
            ) by {
                if f >= removed.len() {
                    let a = added@[f - removed.len()];
                    assert(a == self.foods@[f]);
                    assert forall|j: int, q: int|
                        0 <= j < self.snakes@.len() && 0 <= q < self.snakes@[j].cells@.len() && (
                        #[trigger] self.snakes@[j].cells@[q]) == a implies q == 0 && grown(
                        self.snakes@[j],
                    ) by {
                        assert(self.snakes@[j].cells@.contains(a));
                    }
                } else {
                    assert(self.foods@[f] == removed[f]);
                }
            }
            assert(all_in_bounds(self.foods@)) by {
                assert forall|f: int| 0 <= f < self.foods@.len() implies cell_in_bounds(
                    #[trigger] self.foods@[f],
                ) by {
                    if f >= removed.len() {
                        assert(self.foods@[f] == added@[f - removed.len()]);
                    } else {
                        let g = if f == k { before.len() - 1 } else { f };
                        assert(self.foods@[f] == before[g]);
                    }
                }
            }
        }
        let m = Meal { snake: i, cell, removed_food: k, added_foods: added };
        assert(removed == swap_removed(old(self).foods@, m.removed_food as int));
        m
    }

    /// One single-player grid step: apply a buffered turn, move, resolve. A
    /// meal is scored and its pellet replaced; a death clears `alive` and
    /// ends the round with a `Solo` result.
    pub fn advance_single(&mut self, hash: &impl Fn(u32) -> u32) -> (r: TickReport)
        requires
            forall|x: u32| hash.requires((x,)),
            old(self).wf(),
            old(self).mode == GameMode::SinglePlayer,
        ensures
            final(self).wf(),
            final(self).mode == old(self).mode,
            final(self).chaos_mode == old(self).chaos_mode,
            final(self).frame_count == old(self).frame_count,
            single_tick(*hash, *old(self), *final(self), r),
    {
        let ghost s = self.snakes@[0];
        proof {
            lemma_queue_after_turn_shrinks(s.direction, s.input_queue@);
            lemma_step_keeps_the_body(
                s.cells@,
                next_direction_spec(s.direction, s.input_queue@),
                self.foods@,
                ridiculous_family(self.chaos_mode),
            );
        }
        self.snakes[0].take_turn();
        let dir = self.snakes[0].direction;
        let wrap = walls_wrap(self.chaos_mode);
        let outcome = step_snake(&mut self.snakes[0].cells, dir, self.foods.as_slice(), wrap);
        let mut meals: Vec<Meal> = Vec::new();
        match outcome {
            StepOutcome::Moved => {
                proof {
                    let t = self.snakes@[0];
                    assert forall|f: int| 0 <= f < self.foods@.len() implies !on_a_snake(
                        self.snakes@,
                        #[trigger] self.foods@[f],
                    ) by {
                        let food = self.foods@[f];
                        assert(!on_a_snake(old(self).snakes@, food));
                        if t.cells@.contains(food) {
                            let q = choose|q: int| 0 <= q < t.cells@.len() && t.cells@[q] == food;
                            if q > 0 {
                                assert(s.cells@[q - 1] == food);
                                assert(old(self).snakes@[0].cells@.contains(food));
                            }
                        }
                    }
                    assert(self.snakes@[0].wf());
                }
                TickReport { meals, result: None }
            },
            StepOutcome::Died(cause) => {
                self.snakes[0].alive = false;
                proof {
                    assert(self.snakes@[0].wf());
                    assert forall|f: int| 0 <= f < self.foods@.len() implies !on_a_snake(
                        self.snakes@,
                        #[trigger] self.foods@[f],
                    ) by {
                        assert(!on_a_snake(old(self).snakes@, self.foods@[f]));
                        if self.snakes@[0].cells@.contains(self.foods@[f]) {
                            assert(old(self).snakes@[0].cells@.contains(self.foods@[f]));
                        }
                    }
                }
                TickReport { meals, result: Some(GameResult::Solo(cause)) }
            },
            StepOutcome::Ate(cell) => {
                proof {
                    let t = self.snakes@[0];
                    assert(grown(t));
                    assert forall|f: int| 0 <= f < self.foods@.len() implies food_clear(
                        self.snakes@,
                        #[trigger] self.foods@[f],
                    ) by {
                        let food = self.foods@[f];
                        assert(!on_a_snake(old(self).snakes@, food));
                        assert forall|j: int, q: int|
                            0 <= j < self.snakes@.len() && 0 <= q < self.snakes@[j].cells@.len()
                                && (#[trigger] self.snakes@[j].cells@[q]) == food implies q == 0
                            && grown(self.snakes@[j]) by {
                            if q > 0 {
                                assert(s.cells@[q - 1] == food);
                                assert(old(self).snakes@[0].cells@.contains(food));
                            }
                        }
                    }
                }
                let m = self.finish_meal(0, cell, hash);
                meals.push(m);
                proof {
                    assert forall|f: int| 0 <= f < self.foods@.len() implies !on_a_snake(
                        self.snakes@,
                        #[trigger] self.foods@[f],
                    ) by {
                        let food = self.foods@[f];
                        assert(food_clear(self.snakes@, food));
                        if on_a_snake(self.snakes@, food) {
                            let q = choose|q: int|
                                0 <= q < self.snakes@[0].cells@.len() && self.snakes@[0].cells@[q]
                                    == food;
                            assert(grown(self.snakes@[0]));
                        }
                    }
                }
                TickReport { meals, result: None }
            },
        }
    }

    /// Advance snake `i`'s body by its resolved versus step.
    fn apply_versus_step(&mut self, i: usize, step: VersusStep)
        requires
            i < old(self).snakes@.len(),
            old(self).snakes@[i as int].cells@.len() > 0,
        ensures
            final(self).snakes@.len() == old(self).snakes@.len(),
            final(self).foods@ == old(self).foods@,
            final(self).mode == old(self).mode,
            final(self).chaos_mode == old(self).chaos_mode,
            final(self).frame_count == old(self).frame_count,
            forall|j: int|
                0 <= j < final(self).snakes@.len() && j != i ==> #[trigger] final(self).snakes@[j]
                    == old(self).snakes@[j],
            final(self).snakes@[i as int].cells@ == body_after(
                old(self).snakes@[i as int].cells@,
                step,
            ),
            final(self).snakes@[i as int].alive == (old(self).snakes@[i as int].alive
                && !(step is Died)),
            final(self).snakes@[i as int].direction == old(self).snakes@[i as int].direction,
            final(self).snakes@[i as int].input_queue@ == old(self).snakes@[i as int].input_queue@,
            final(self).snakes@[i as int].score == old(self).snakes@[i as int].score,
            final(self).snakes@[i as int].foods_eaten == old(self).snakes@[i as int].foods_eaten,
    {
        match step {
            VersusStep::Moved(head) => {
                let ghost before = self.snakes@[i as int].cells@;
                self.snakes[i].cells.push_front(head);
                self.snakes[i].cells.pop_back();
                assert(self.snakes@[i as int].cells@ =~= seq![head] + before.drop_last());
            },
            VersusStep::Ate(head) => {
                self.snakes[i].cells.push_front(head);
            },
            VersusStep::Died(_) => {
                self.snakes[i].alive = false;
            },
        }
    }

    /// Book the meals of a versus tick, snake 0 first, once both bodies moved.
    fn book_versus_meals(&mut self, st0: VersusStep, st1: VersusStep, hash: &impl Fn(u32) -> u32) -> (meals: Vec<Meal>)
        requires
            forall|x: u32| hash.requires((x,)),
            old(self).snakes@.len() == 2,
            old(self).mode == GameMode::TwoPlayerVersus,
            st0 is Ate ==> grown(old(self).snakes@[0]),
            !(st0 is Ate) ==> old(self).snakes@[0].wf(),
            st1 is Ate ==> grown(old(self).snakes@[1]),
            !(st1 is Ate) ==> old(self).snakes@[1].wf(),
            st0 matches VersusStep::Ate(h) ==> old(self).snakes@[0].cells@[0] == h
                && old(self).foods@.contains(h),
            st1 matches VersusStep::Ate(h) ==> old(self).snakes@[1].cells@[0] == h
                && old(self).foods@.contains(h),
            st0 matches VersusStep::Ate(h0) ==> !(st1 matches VersusStep::Ate(h1) && h1 == h0),
            old(self).snakes@[0].alive && old(self).snakes@[1].alive ==> apart(
                old(self).snakes@[0].cells@,
                old(self).snakes@[1].cells@,
            ),
            old(self).foods@.len() <= food_count_spec(old(self).chaos_mode),
            old(self).foods@.no_duplicates(),
            all_in_bounds(old(self).foods@),
            forall|f: int|
                0 <= f < old(self).foods@.len() ==> food_clear(
                    old(self).snakes@,
                    #[trigger] old(self).foods@[f],
                ),
        ensures
            final(self).wf(),
            final(self).mode == old(self).mode,
            final(self).chaos_mode == old(self).chaos_mode,
            final(self).frame_count == old(self).frame_count,
            forall|i: int|
                0 <= i < 2 ==> (#[trigger] final(self).snakes@[i]).cells@ == old(self).snakes@[i].cells@
                    && final(self).snakes@[i].direction == old(self).snakes@[i].direction
                    && final(self).snakes@[i].input_queue@ == old(self).snakes@[i].input_queue@
                    && final(self).snakes@[i].alive == old(self).snakes@[i].alive,
            final(self).snakes@[0].score == (if st0 is Ate {
                old(self).snakes@[0].score + FOOD_POINTS
            } else {
                old(self).snakes@[0].score as int
            }),
            final(self).snakes@[0].foods_eaten == (if st0 is Ate {
                old(self).snakes@[0].foods_eaten + 1
            } else {
                old(self).snakes@[0].foods_eaten as int
            }),
            final(self).snakes@[1].score == (if st1 is Ate {
                old(self).snakes@[1].score + FOOD_POINTS
            } else {
                old(self).snakes@[1].score as int
            }),
            final(self).snakes@[1].foods_eaten == (if st1 is Ate {
                old(self).snakes@[1].foods_eaten + 1
            } else {
                old(self).snakes@[1].foods_eaten as int
            }),
            meals@.map_values(|m: Meal| (m.snake, m.cell)) == versus_meals(st0, st1),
            meals_remove_their_pellets(old(self).foods@, meals@),
            final(self).foods@ == replay_meals(old(self).foods@, meals@),
            meals_placed(*hash, final(self).snakes@, old(self).foods@, old(self).frame_count, meals@),
            meals@.len() > 0 ==> topped_up(*final(self)),
    {
        let ghost foods0 = self.foods@;
        let mut meals: Vec<Meal> = Vec::new();
        if let VersusStep::Ate(cell) = st0 {
            let m = self.finish_meal(0, cell, hash);
            meals.push(m);
        }
        let ghost mid_foods = self.foods@;
        let ghost mid_snakes = self.snakes@;
        if let VersusStep::Ate(cell) = st1 {
            proof {
                if st0 is Ate {
                    let k = meals@[0].removed_food as int;
                    lemma_swap_removed_keeps(foods0, k, cell);
                    let r = swap_removed(foods0, k);
                    let j = choose|j: int| 0 <= j < r.len() && r[j] == cell;
                    assert(mid_foods[j] == cell);
                }
            }
            let m = self.finish_meal(1, cell, hash);
            meals.push(m);
        }
        proof {
            lemma_versus_meals_bookkeeping(foods0, mid_foods, self.foods@, meals@, st0, st1);
            reveal_with_fuel(meals_placed, 3);
            lemma_same_bodies_same_cells(mid_snakes, self.snakes@);
            if st0 is Ate {
                lemma_meal_placed_transfers(
                    *hash,
                    mid_snakes,
                    self.snakes@,
                    foods0,
                    self.frame_count,
                    meals@[0],
                );
            }
            if meals@.len() == 2 {
                assert(meals@.drop_first()[0] == meals@[1]);
                assert(meals@.drop_first().drop_first().len() == 0);
            }
            assert forall|f: int| 0 <= f < self.foods@.len() implies !on_a_snake(
                self.snakes@,
                #[trigger] self.foods@[f],
            ) by {
                let food = self.foods@[f];
                assert(food_clear(self.snakes@, food));
                if on_a_snake(self.snakes@, food) {
                    let j = choose|j: int|
                        0 <= j < self.snakes@.len() && (#[trigger] self.snakes@[j]).cells@.contains(
                            food,
                        );
                    let q = choose|q: int|
                        0 <= q < self.snakes@[j].cells@.len() && self.snakes@[j].cells@[q] == food;
                    assert(grown(self.snakes@[j]));
                }
            }
        }
        meals
    }

    /// One versus grid step: both snakes take their buffered turns and resolve
    /// from the pre-step board, then only the survivors advance; meals are
    /// booked snake 0 first, after both bodies moved, so replacement pellets
    /// avoid both snakes' final cells. The round ends the first tick anyone
    /// dies.
    pub fn advance_versus(&mut self, hash: &impl Fn(u32) -> u32) -> (r: TickReport)
        requires
            forall|x: u32| hash.requires((x,)),
            old(self).wf(),
            old(self).mode == GameMode::TwoPlayerVersus,
        ensures
            final(self).wf(),
            final(self).mode == old(self).mode,
            final(self).chaos_mode == old(self).chaos_mode,
            final(self).frame_count == old(self).frame_count,
            versus_tick(*hash, *old(self), *final(self), r),
    {
        let ghost s0 = self.snakes@[0];
        let ghost s1 = self.snakes@[1];
        let ghost foods0 = self.foods@;
        self.snakes[0].take_turn();
        self.snakes[1].take_turn();
        let d0 = self.snakes[0].direction;
        let d1 = self.snakes[1].direction;
        let wrap = walls_wrap(self.chaos_mode);
        let steps = resolve_versus_step(
            [&self.snakes[0].cells, &self.snakes[1].cells],
            [d0, d1],
            self.foods.as_slice(),
            wrap,
        );
        proof {
            lemma_queue_after_turn_shrinks(s0.direction, s0.input_queue@);
            lemma_queue_after_turn_shrinks(s1.direction, s1.input_queue@);
            lemma_versus_step_keeps_the_body(s0.cells@, d0, s1.cells@, d1, foods0, wrap);
            lemma_versus_step_keeps_the_body(s1.cells@, d1, s0.cells@, d0, foods0, wrap);
        }
        let st0 = steps[0];
        let st1 = steps[1];
        self.apply_versus_step(0, st0);
        self.apply_versus_step(1, st1);
        proof {
            lemma_snake_after_step(s0, self.snakes@[0], st0, foods0);
            lemma_snake_after_step(s1, self.snakes@[1], st1, foods0);
            if self.snakes@[0].alive && self.snakes@[1].alive {
                lemma_survivors_stay_apart(s0.cells@, d0, s1.cells@, d1, foods0, wrap);
            }
            assert forall|f: int| 0 <= f < foods0.len() implies food_clear(
                self.snakes@,
                #[trigger] foods0[f],
            ) by {
                assert(!on_a_snake(old(self).snakes@, foods0[f]));
                assert(old(self).snakes@[0] == s0 && old(self).snakes@[1] == s1);
                assert(!s0.cells@.contains(foods0[f]));
                assert(!s1.cells@.contains(foods0[f]));
            }
        }
        let meals = self.book_versus_meals(st0, st1, hash);
        let result = versus_result(&steps);
        TickReport { meals, result }
    }

    /// Reset and respawn the snakes for the current `mode` and deal fresh food:
    /// one snake mid-field heading right in single player, the two versus
    /// spawns otherwise.
    pub fn start(&mut self, hash: &impl Fn(u32) -> u32)
        requires
            forall|x: u32| hash.requires((x,)),
        ensures
            final(self).wf(),
            final(self).mode == old(self).mode,
            final(self).chaos_mode == old(self).chaos_mode,
            final(self).frame_count == old(self).frame_count,
            old(self).mode == GameMode::SinglePlayer ==> fresh_snake(
                final(self).snakes@[0],
                solo_spawn().0,
                solo_spawn().1,
            ),
            old(self).mode == GameMode::TwoPlayerVersus ==> fresh_snake(
                final(self).snakes@[0],
                versus_spawn_spec(0).0,
                versus_spawn_spec(0).1,
            ) && fresh_snake(
                final(self).snakes@[1],
                versus_spawn_spec(1).0,
                versus_spawn_spec(1).1,
            ),
            final(self).foods@.len() == food_count_spec(old(self).chaos_mode),
            forall|k: int|
                0 <= k < final(self).foods@.len() ==> placed_by(
                    *hash,
                    final(self).snakes@,
                    final(self).foods@.take(k),
                    old(self).frame_count,
                    #[trigger] final(self).foods@[k],
                ),
    {
        self.snakes = Vec::new();
        self.foods = Vec::new();
        match self.mode {
            GameMode::SinglePlayer => {
                let head = Cell { x: GRID_COLS / 2, y: GRID_ROWS / 2 };
                let snake = Snake::new(head, Direction::Right);
                assert(head == solo_spawn().0);
                assert(snake.cells@ =~= seq![
                    body_cell(head, Direction::Right, 0),
                    body_cell(head, Direction::Right, 1),
                    body_cell(head, Direction::Right, 2),
                ]);
                self.snakes.push(snake);
            },
            GameMode::TwoPlayerVersus => {
                let (h0, d0) = versus_spawn(0);
                let (h1, d1) = versus_spawn(1);
                let s0 = Snake::new(h0, d0);
                let s1 = Snake::new(h1, d1);
                assert(s0.cells@ =~= seq![body_cell(h0, d0, 0), body_cell(h0, d0, 1), body_cell(h0, d0, 2)]);
                assert(s1.cells@ =~= seq![body_cell(h1, d1, 0), body_cell(h1, d1, 1), body_cell(h1, d1, 2)]);
                self.snakes.push(s0);
                self.snakes.push(s1);
            },
        }
        proof {
            lemma_fresh_snakes_are_well_formed(self.mode, self.snakes@);
        }
        let ghost snakes = self.snakes@;
        let added = self.spawn_missing_food(hash);
        proof {
            assert(self.foods@ =~= added@);
            assert forall|k: int| 0 <= k < self.foods@.len() implies #[trigger] (Seq::<Cell>::empty() + added@.take(k)) == self.foods@.take(k) by {
                assert(Seq::<Cell>::empty() + added@.take(k) =~= self.foods@.take(k));
            }
            assert forall|i: int| 0 <= i < self.snakes@.len() implies (
            #[trigger] self.snakes@[i]).wf() by {
                assert(self.snakes@[i] == snakes[i]);
            }
            if self.foods@.len() < food_count_spec(self.chaos_mode) {
                // Fewer pellets than asked would mean a full board, but the
                // fresh snakes and at most one pellet leave free cells.
                let c = Cell { x: 0, y: 0 };
                let c2 = Cell { x: 0, y: 1 };
                assert(cell_in_bounds(c) && cell_in_bounds(c2));
                assert(!on_a_snake(self.snakes@, c));
                assert(!on_a_snake(self.snakes@, c2));
                assert(self.foods@.contains(c));
                assert(self.foods@.contains(c2));
                assert(self.foods@.len() <= 1);
                assert(self.foods@[0] == c && self.foods@[0] == c2);
            }
        }
    }

    /// Buffer a just-pressed turn for snake `i`; a missing or dead snake takes
    /// no turns (see `Snake::queue_turn`).
    pub fn queue_turn(&mut self, i: usize, dir: Direction)
        requires
            old(self).wf(),
        ensures
            final(self).wf(),
            final(self).foods@ == old(self).foods@,
            final(self).mode == old(self).mode,
            final(self).chaos_mode == old(self).chaos_mode,
            final(self).frame_count == old(self).frame_count,
            forall|j: int|
                0 <= j < final(self).snakes@.len() && j != i ==> #[trigger] final(self).snakes@[j]
                    == old(self).snakes@[j],
            i < old(self).snakes@.len() ==> {
                let s = old(self).snakes@[i as int];
                let t = final(self).snakes@[i as int];
                &&& t.cells@ == s.cells@
                &&& t.direction == s.direction
                &&& t.score == s.score
                &&& t.foods_eaten == s.foods_eaten
                &&& t.alive == s.alive
                &&& t.input_queue@ == (if s.alive && s.input_queue@.len() < INPUT_QUEUE_CAP && (
                s.input_queue@.len() == 0 || s.input_queue@.last() != dir) {
                    s.input_queue@.push(dir)
                } else {
                    s.input_queue@
                })
            },
            i >= old(self).snakes@.len() ==> final(self).snakes@ == old(self).snakes@,
    {
        if i < self.snakes.len() {
            self.snakes[i].queue_turn(dir);
            proof {
                assert forall|f: int| 0 <= f < self.foods@.len() implies !on_a_snake(
                    self.snakes@,
                    #[trigger] self.foods@[f],
                ) by {
                    assert(!on_a_snake(old(self).snakes@, self.foods@[f]));
                    if on_a_snake(self.snakes@, self.foods@[f]) {
                        let j = choose|j: int|
                            0 <= j < self.snakes@.len() && (
                            #[trigger] self.snakes@[j]).cells@.contains(self.foods@[f]);
                        assert(old(self).snakes@[j].cells@ == self.snakes@[j].cells@);
                    }
                }
                assert forall|j: int| 0 <= j < self.snakes@.len() implies (
                #[trigger] self.snakes@[j]).wf() by {
                    assert(old(self).snakes@[j].wf());
                }
            }
        }
    }

    /// Combined meals across snakes; drives the shared tick pace.
    pub fn total_foods_eaten(&self) -> (n: u32)
        requires
            self.wf(),
        ensures
            n == meals_total(self.snakes@),
    {
        let mut n: u32 = 0;
        let mut i: usize = 0;
        while i < self.snakes.len()
            invariant
                0 <= i <= self.snakes@.len(),
                self.snakes@.len() <= 2,
                forall|j: int| 0 <= j < self.snakes@.len() ==> (#[trigger] self.snakes@[j]).wf(),
                n == meals_total(self.snakes@.take(i as int)),
                n <= GRID_CELLS * i,
            decreases self.snakes@.len() - i,
        {
            proof {
                let s = self.snakes@[i as int];
                assert(s.wf());
                lemma_distinct_cells_fit_the_board(s.cells@);
                assert(self.snakes@.take(i + 1).drop_last() =~= self.snakes@.take(i as int));
            }
            n = n + self.snakes[i].foods_eaten;
            i = i + 1;
        }
        assert(self.snakes@.take(self.snakes@.len() as int) =~= self.snakes@);
        n
    }

    /// One grid step for the board's mode (see `advance_single` and
    /// `advance_versus`).
    pub fn advance(&mut self, hash: &impl Fn(u32) -> u32) -> (r: TickReport)
        requires
            forall|x: u32| hash.requires((x,)),
            old(self).wf(),
        ensures
            final(self).wf(),
            final(self).mode == old(self).mode,
            final(self).chaos_mode == old(self).chaos_mode,
            final(self).frame_count == old(self).frame_count,
            old(self).mode == GameMode::SinglePlayer ==> single_tick(
                *hash,
                *old(self),
                *final(self),
                r,
            ),
            old(self).mode == GameMode::TwoPlayerVersus ==> versus_tick(
                *hash,
                *old(self),
                *final(self),
                r,
            ),
    {
        match self.mode {
            GameMode::SinglePlayer => self.advance_single(hash),
            GameMode::TwoPlayerVersus => self.advance_versus(hash),
        }
    }

    /// The achievements snake `i`'s latest meal unlocks: achievements are a
    /// single-player pursuit, so versus meals unlock nothing. `since_last_eat_ms`
    /// is the time since the snake's previous meal.
    pub fn meal_achievements(&self, i: usize, since_last_eat_ms: u32) -> (v: Vec<AchievementId>)
        requires
            i < self.snakes@.len(),
        ensures
            v@ == (if self.mode == GameMode::SinglePlayer {
                food_unlocks(
                    self.snakes@[i as int].cells@.len() as int,
                    self.chaos_mode,
                    self.snakes@[i as int].foods_eaten as int,
                    since_last_eat_ms as int,
                )
            } else {
                Seq::empty()
            }),
    {
        match self.mode {
            GameMode::SinglePlayer => food_achievements(
                self.snakes[i].cells.len(),
                self.chaos_mode,
                self.snakes[i].foods_eaten,
                since_last_eat_ms,
            ),
            GameMode::TwoPlayerVersus => Vec::new(),
        }
    }

    /// Top the board back up to the mode's pellet count, avoiding every snake
    /// and every pellet. The `k`-th new pellet is placed with the hash of
    /// `frame_count` plus the pellet count at that moment. Returns the new
    /// pellets, which are appended to `foods` in order; fewer than needed only
    /// when the board is completely occupied.
    pub fn spawn_missing_food(&mut self, hash: &impl Fn(u32) -> u32) -> (added: Vec<Cell>)
        requires
            forall|x: u32| hash.requires((x,)),
        ensures
            final(self).snakes@ == old(self).snakes@,
            final(self).mode == old(self).mode,
            final(self).chaos_mode == old(self).chaos_mode,
            final(self).frame_count == old(self).frame_count,
            final(self).foods@ == old(self).foods@ + added@,
            forall|k: int|
                0 <= k < added@.len() ==> cell_in_bounds(#[trigger] added@[k]) && !on_a_snake(
                    old(self).snakes@,
                    added@[k],
                ),
            (old(self).foods@ + added@).no_duplicates() <== old(self).foods@.no_duplicates(),
            final(self).foods@.len() >= food_count_spec(old(self).chaos_mode)
                || forall|c: Cell|
                cell_in_bounds(c) ==> on_a_snake(old(self).snakes@, c)
                    || final(self).foods@.contains(c),
            old(self).foods@.len() >= food_count_spec(old(self).chaos_mode) ==> added@.len() == 0,
            old(self).foods@.len() <= food_count_spec(old(self).chaos_mode) ==> final(self).foods@.len()
                <= food_count_spec(old(self).chaos_mode),
            forall|k: int|
                0 <= k < added@.len() ==> placed_by(
                    *hash,
                    old(self).snakes@,
                    old(self).foods@ + added@.take(k),
                    old(self).frame_count,
                    #[trigger] added@[k],
                ),
    {
        let target = food_count(self.chaos_mode);
        let mut added: Vec<Cell> = Vec::new();
        let ghost old_foods = self.foods@;
        while self.foods.len() < target
            invariant
                forall|x: u32| hash.requires((x,)),
                target == food_count_spec(self.chaos_mode),
                self.snakes@ == old(self).snakes@,
                self.mode == old(self).mode,
                self.chaos_mode == old(self).chaos_mode,
                self.frame_count == old(self).frame_count,
                old_foods == old(self).foods@,
                self.foods@ == old_foods + added@,
                forall|k: int|
                    0 <= k < added@.len() ==> cell_in_bounds(#[trigger] added@[k]) && !on_a_snake(
                        old(self).snakes@,
                        added@[k],
                    ),
                old_foods.no_duplicates() ==> self.foods@.no_duplicates(),
                old_foods.len() >= target ==> added@.len() == 0,
                old_foods.len() <= target ==> self.foods@.len() <= target,
                forall|k: int|
                    0 <= k < added@.len() ==> placed_by(
                        *hash,
                        old(self).snakes@,
                        old_foods + added@.take(k),
                        old(self).frame_count,
                        #[trigger] added@[k],
                    ),
            ensures
                self.snakes@ == old(self).snakes@,
                self.mode == old(self).mode,
                self.chaos_mode == old(self).chaos_mode,
                self.frame_count == old(self).frame_count,
                self.foods@ == old_foods + added@,
                forall|k: int|
                    0 <= k < added@.len() ==> cell_in_bounds(#[trigger] added@[k]) && !on_a_snake(
                        old(self).snakes@,
                        added@[k],
                    ),
                old_foods.no_duplicates() ==> self.foods@.no_duplicates(),
                self.foods@.len() >= target || forall|c: Cell|
                    cell_in_bounds(c) ==> on_a_snake(old(self).snakes@, c) || self.foods@.contains(c),
                old_foods.len() >= target ==> added@.len() == 0,
                old_foods.len() <= target ==> self.foods@.len() <= target,
                forall|k: int|
                    0 <= k < added@.len() ==> placed_by(
                        *hash,
                        old(self).snakes@,
                        old_foods + added@.take(k),
                        old(self).frame_count,
                        #[trigger] added@[k],
                    ),
            decreases target - self.foods@.len(),
        {
            let occupied = self.occupied_cells();
            let salt = self.foods.len() as u32;
            let seed = self.frame_count.wrapping_add(salt);
            let hashed = hash(seed);
            match place_food_at(&occupied, hashed) {
                Some(cell) => {
                    proof {
                        lemma_occupied_holds(self.snakes@, self.foods@, cell);
                    }
                    let ghost prev = added@;
                    proof {
                        assert(placed_by(*hash, self.snakes@, old_foods + prev, self.frame_count, cell));
                    }
                    self.foods.push(cell);
                    added.push(cell);
                    proof {
                        assert(self.foods@ =~= old_foods + added@);
                        assert(added@.take(prev.len() as int) =~= prev);
                        assert forall|k: int| 0 <= k < prev.len() implies added@.take(k) =~= prev.take(k) by {}
                    }
                },
                None => {
                    proof {
                        assert forall|c: Cell| cell_in_bounds(c) implies on_a_snake(
                            old(self).snakes@,
                            c,
                        ) || self.foods@.contains(c) by {
                            lemma_occupied_holds(self.snakes@, self.foods@, c);
                        }
                    }
                    break;
                },
            }
        }
        added
    }
}

/// A cell is in the occupied list exactly when it lies on a snake or a pellet.
pub proof fn lemma_occupied_holds(snakes: Seq<Snake>, foods: Seq<Cell>, c: Cell)
    ensures
        (all_snake_cells(snakes) + foods).contains(c) <==> (on_a_snake(snakes, c)
            || foods.contains(c)),
{
    lemma_all_snake_cells(snakes, c);
    let a = all_snake_cells(snakes);
    let o = a + foods;
    if o.contains(c) {
        let k = choose|k: int| 0 <= k < o.len() && o[k] == c;
        if k < a.len() {
            assert(a[k] == c);
        } else {
            assert(foods[k - a.len()] == c);
        }
    }
    if a.contains(c) {
        let k = choose|k: int| 0 <= k < a.len() && a[k] == c;
        assert(o[k] == c);
    }
    if foods.contains(c) {
        let k = choose|k: int| 0 <= k < foods.len() && foods[k] == c;
        assert(o[a.len() + k] == c);
    }
}

/// Freshly spawned snakes are well formed and leave column 0 free.
proof fn lemma_fresh_snakes_are_well_formed(mode: GameMode, snakes: Seq<Snake>)
    requires
        snakes.len() == snake_count(mode),
        mode == GameMode::SinglePlayer ==> fresh_snake(snakes[0], solo_spawn().0, solo_spawn().1),
        mode == GameMode::TwoPlayerVersus ==> fresh_snake(
            snakes[0],
            versus_spawn_spec(0).0,
            versus_spawn_spec(0).1,
        ) && fresh_snake(snakes[1], versus_spawn_spec(1).0, versus_spawn_spec(1).1),
    ensures
        forall|i: int| 0 <= i < snakes.len() ==> (#[trigger] snakes[i]).wf(),
        forall|i: int, k: int|
            0 <= i < snakes.len() && 0 <= k < snakes[i].cells@.len() ==> (#[trigger] snakes[i].cells@[k]).x > 0,
{
    assert forall|i: int| 0 <= i < snakes.len() implies (#[trigger] snakes[i]).wf() && forall|k: int|
        0 <= k < snakes[i].cells@.len() ==> (#[trigger] snakes[i].cells@[k]).x > 0 by {
        let c = snakes[i].cells@;
        assert(c.len() == 3);
        assert(c[0] != c[1] && c[0] != c[2] && c[1] != c[2]);
        assert(cell_in_bounds(c[0]) && cell_in_bounds(c[1]) && cell_in_bounds(c[2]));
    }
}

/// A pellet other than the removed one survives a `swap_remove`.
pub proof fn lemma_swap_removed_keeps(s: Seq<Cell>, k: int, c: Cell)
    requires
        0 <= k < s.len(),
        s.contains(c),
        s[k] != c,
    ensures
        swap_removed(s, k).contains(c),
{
    let j = choose|j: int| 0 <= j < s.len() && s[j] == c;
    let r = swap_removed(s, k);
    if j == s.len() - 1 {
        assert(r[k] == c);
    } else {
        assert(r[j] == c);
    }
}

/// A snake moved by a versus step is well formed again, or grown onto a
/// pellet when it ate; a pellet lies on its body only under an eating head.
proof fn lemma_snake_after_step(b: Snake, a: Snake, st: VersusStep, foods: Seq<Cell>)
    requires
        b.wf(),
        a.cells@ == body_after(b.cells@, st),
        a.score == b.score,
        a.foods_eaten == b.foods_eaten,
        a.input_queue@.len() <= INPUT_QUEUE_CAP,
        a.cells@.no_duplicates(),
        all_in_bounds(a.cells@),
        st matches VersusStep::Moved(h) ==> !foods.contains(h),
        st matches VersusStep::Ate(h) ==> foods.contains(h),
        forall|f: int| 0 <= f < foods.len() ==> !b.cells@.contains(#[trigger] foods[f]),
    ensures
        st is Ate ==> grown(a),
        !(st is Ate) ==> a.wf(),
        forall|f: int, q: int|
            0 <= f < foods.len() && 0 <= q < a.cells@.len() && #[trigger] a.cells@[q]
                == #[trigger] foods[f] ==> q == 0 && st is Ate,
{
    assert forall|f: int, q: int|
        0 <= f < foods.len() && 0 <= q < a.cells@.len() && #[trigger] a.cells@[q]
            == #[trigger] foods[f] implies q == 0 && st is Ate by {
        let food = foods[f];
        if q > 0 && !(st is Died) {
            assert(b.cells@[q - 1] == food);
        }
        if st is Died {
            assert(b.cells@[q] == food);
        }
        assert(foods.contains(food));
    }
}

/// The meals of a versus tick, booked snake 0 first, replay onto the pellets.
proof fn lemma_versus_meals_bookkeeping(
    foods0: Seq<Cell>,
    mid: Seq<Cell>,
    last: Seq<Cell>,
    meals: Seq<Meal>,
    st0: VersusStep,
    st1: VersusStep,
)
    requires
        meals.len() == (if st0 is Ate { 1int } else { 0 }) + (if st1 is Ate { 1int } else { 0 }),
        st0 matches VersusStep::Ate(h) ==> {
            &&& meals[0].snake == 0
            &&& meals[0].cell == h
            &&& meals[0].removed_food < foods0.len()
            &&& foods0[meals[0].removed_food as int] == h
            &&& mid == swap_removed(foods0, meals[0].removed_food as int) + meals[0].added_foods@
        },
        !(st0 is Ate) ==> mid == foods0,
        st1 matches VersusStep::Ate(h) ==> {
            let m = meals[meals.len() - 1];
            &&& m.snake == 1
            &&& m.cell == h
            &&& m.removed_food < mid.len()
            &&& mid[m.removed_food as int] == h
            &&& last == swap_removed(mid, m.removed_food as int) + m.added_foods@
        },
        !(st1 is Ate) ==> last == mid,
    ensures
        meals.map_values(|m: Meal| (m.snake, m.cell)) == versus_meals(st0, st1),
        meals_remove_their_pellets(foods0, meals),
        last == replay_meals(foods0, meals),
{
    reveal_with_fuel(meals_remove_their_pellets, 3);
    reveal_with_fuel(replay_meals, 3);
    assert(meals.map_values(|m: Meal| (m.snake, m.cell)) =~= versus_meals(st0, st1));
    if meals.len() == 2 {
        let rest = meals.drop_first();
        assert(rest.drop_first().len() == 0);
        assert(replay_meals(mid, rest) == replay_meals(last, rest.drop_first()));
        assert(meals_remove_their_pellets(mid, rest));
    } else if meals.len() == 1 {
        assert(meals.drop_first().len() == 0);
        if st0 is Ate {
            assert(replay_meals(foods0, meals) == replay_meals(mid, meals.drop_first()));
        } else {
            assert(replay_meals(foods0, meals) == replay_meals(last, meals.drop_first()));
        }
    }
}

/// `c` is the pellet placed on the board with `snakes` and pellets `foods`:
/// the first free cell in probe order from the hash of `frame` plus the pellet
/// count, for some value the `hash` function can return.
pub open spec fn placed_by<H: Fn(u32) -> u32>(
    hash: H,
    snakes: Seq<Snake>,
    foods: Seq<Cell>,
    frame: u32,
    c: Cell,
) -> bool {
    exists|h: u32|
        call_ensures(hash, (frame.wrapping_add(foods.len() as u32),), h) && place_food_spec(
            all_snake_cells(snakes) + foods,
            h,
        ) == Some(c)
}

/// The pellets meal `m` placed after eating at the board `snakes` with pellets
/// `foods` are each the one `placed_by` the hash at its turn.
pub open spec fn meal_placed<H: Fn(u32) -> u32>(
    hash: H,
    snakes: Seq<Snake>,
    foods: Seq<Cell>,
    frame: u32,
    m: Meal,
) -> bool {
    forall|k: int|
        0 <= k < m.added_foods@.len() ==> placed_by(
            hash,
            snakes,
            swap_removed(foods, m.removed_food as int) + m.added_foods@.take(k),
            frame,
            #[trigger] m.added_foods@[k],
        )
}

/// `meal_placed` for each meal of `meals`, replayed in order on `foods`.
pub open spec fn meals_placed<H: Fn(u32) -> u32>(
    hash: H,
    snakes: Seq<Snake>,
    foods: Seq<Cell>,
    frame: u32,
    meals: Seq<Meal>,
) -> bool
    decreases meals.len(),
{
    meals.len() > 0 ==> {
        &&& meal_placed(hash, snakes, foods, frame, meals[0])
        &&& meals_placed(
            hash,
            snakes,
            swap_removed(foods, meals[0].removed_food as int) + meals[0].added_foods@,
            frame,
            meals.drop_first(),
        )
    }
}

/// Placement only looks at where the snakes are.
pub proof fn lemma_meal_placed_transfers<H: Fn(u32) -> u32>(
    hash: H,
    a: Seq<Snake>,
    b: Seq<Snake>,
    foods: Seq<Cell>,
    frame: u32,
    m: Meal,
)
    requires
        all_snake_cells(a) == all_snake_cells(b),
        meal_placed(hash, a, foods, frame, m),
    ensures
        meal_placed(hash, b, foods, frame, m),
{
    assert forall|k: int| 0 <= k < m.added_foods@.len() implies placed_by(
        hash,
        b,
        swap_removed(foods, m.removed_food as int) + m.added_foods@.take(k),
        frame,
        #[trigger] m.added_foods@[k],
    ) by {
        assert(placed_by(
            hash,
            a,
            swap_removed(foods, m.removed_food as int) + m.added_foods@.take(k),
            frame,
            m.added_foods@[k],
        ));
    }
}

/// Boards whose snakes have the same bodies flatten to the same cells.
pub proof fn lemma_same_bodies_same_cells(a: Seq<Snake>, b: Seq<Snake>)
    requires
        a.len() == b.len(),
        forall|i: int| 0 <= i < a.len() ==> (#[trigger] a[i]).cells@ == b[i].cells@,
    ensures
        all_snake_cells(a) == all_snake_cells(b),
    decreases a.len(),
{
    if a.len() > 0 {
        lemma_same_bodies_same_cells(a.drop_last(), b.drop_last());
    }
}

/// A round ends exactly when a snake dies: a single-player tick from a live
/// snake reports a result exactly when the snake died, and a versus tick with
/// both snakes alive reports one exactly when either of them died.
pub proof fn lemma_round_ends_at_first_death<H: Fn(u32) -> u32>(
    hash: H,
    pre: Board,
    post: Board,
    r: TickReport,
)
    requires
        pre.wf(),
        pre.mode == GameMode::SinglePlayer ==> single_tick(hash, pre, post, r)
            && pre.snakes@[0].alive,
        pre.mode == GameMode::TwoPlayerVersus ==> versus_tick(hash, pre, post, r)
            && pre.snakes@[0].alive && pre.snakes@[1].alive,
    ensures
        pre.mode == GameMode::SinglePlayer ==> (r.result is None <==> post.snakes@[0].alive),
        pre.mode == GameMode::TwoPlayerVersus ==> (r.result is None <==> (post.snakes@[0].alive
            && post.snakes@[1].alive)),
{
}

/// The pellet count of a chaos mode.
pub open spec fn food_count_spec(mode: ChaosMode) -> usize {
    if ridiculous_family(mode) {
        2
    } else {
        1
    }
}

} // verus!
