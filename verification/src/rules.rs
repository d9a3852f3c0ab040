//! Pure grid rules for Snake: direction buffering, single-snake stepping,
//! versus resolution, food placement and the spawn layout.
use vstd::prelude::*;

use std::collections::VecDeque;

use crate::grid::{
    Cell, Direction, GRID_CELLS, GRID_COLS, GRID_ROWS, cell_in_bounds, delta_x, delta_y, opposite_of, wrap_coord,
};

verus! {

/// What killed a snake.
#[derive(Clone, Copy, Debug, PartialEq, Eq, Structural)]
pub enum DeathCause {
    Wall,
    SelfBite,
    /// Ran into the other snake's body.
    OtherSnake,
    /// Both heads targeted the same cell.
    HeadOn,
}

/// The outcome of a finished round. Single-player rounds are always `Solo`.
#[derive(Clone, Copy, Debug, PartialEq, Eq, Structural)]
pub enum GameResult {
    /// A single-player death by the given cause.
    Solo(DeathCause),
    /// A versus round won by `player` (1-based); the loser died by `loser_cause`.
    Winner { player: u8, loser_cause: DeathCause },
    /// A versus round where both snakes died on the same tick.
    Draw,
}

/// What one single-player grid step did.
#[derive(Clone, Copy, Debug, PartialEq, Eq, Structural)]
pub enum StepOutcome {
    Moved,
    /// The head landed on the food at this cell; the snake grew by one.
    Ate(Cell),
    Died(DeathCause),
}

/// Per-snake result of one versus tick, computed from the pre-step board.
#[derive(Clone, Copy, Debug, PartialEq, Eq, Structural)]
pub enum VersusStep {
    /// Survived and advanced into this new head cell.
    Moved(Cell),
    /// Survived and ate the food at this new head cell; the snake grew.
    Ate(Cell),
    Died(DeathCause),
}

// ---------------------------------------------------------------------------
// Direction buffering
// ---------------------------------------------------------------------------

/// A queued turn applies to a snake heading `current` unless it is the same
/// heading or its reversal.
pub open spec fn turn_applies(current: Direction, d: Direction) -> bool {
    d != current && d != opposite_of(current)
}

/// The heading after consuming queued turns: the first applicable turn, or the
/// current heading once the queue runs dry.
pub open spec fn next_direction_spec(current: Direction, queue: Seq<Direction>) -> Direction
    decreases queue.len(),
{
    if queue.len() == 0 {
        current
    } else if turn_applies(current, queue[0]) {
        queue[0]
    } else {
        next_direction_spec(current, queue.drop_first())
    }
}

/// What is left of the queue after `next_direction_spec` consumed its turns.
pub open spec fn queue_after_turn(current: Direction, queue: Seq<Direction>) -> Seq<Direction>
    decreases queue.len(),
{
    if queue.len() == 0 {
        queue
    } else if turn_applies(current, queue[0]) {
        queue.drop_first()
    } else {
        queue_after_turn(current, queue.drop_first())
    }
}

/// The consumed turn is never a reversal of the current heading.
pub proof fn lemma_next_direction_never_reverses(current: Direction, queue: Seq<Direction>)
    ensures
        next_direction_spec(current, queue) != opposite_of(current),
        next_direction_spec(current, queue) == current || turn_applies(
            current,
            next_direction_spec(current, queue),
        ),
    decreases queue.len(),
{
    if queue.len() > 0 && !turn_applies(current, queue[0]) {
        lemma_next_direction_never_reverses(current, queue.drop_first());
    }
}

/// Applying a turn never lengthens the queue.
pub proof fn lemma_queue_after_turn_shrinks(current: Direction, queue: Seq<Direction>)
    ensures
        queue_after_turn(current, queue).len() <= queue.len(),
    decreases queue.len(),
{
    if queue.len() > 0 && !turn_applies(current, queue[0]) {
        lemma_queue_after_turn_shrinks(current, queue.drop_first());
    }
}

/// Pop the first applicable queued turn. Turns equal or opposite to the
/// current heading are discarded (a 180 into your own neck is never legal),
/// and validation happens at apply time, so two buffered turns can never
/// combine into a reversal.
pub fn next_direction(current: Direction, queue: &mut VecDeque<Direction>) -> (d: Direction)
    ensures
        d == next_direction_spec(current, old(queue)@),
        final(queue)@ == queue_after_turn(current, old(queue)@),
        d != opposite_of(current),
{
    proof {
        lemma_next_direction_never_reverses(current, queue@);
    }
    loop
        invariant
            next_direction_spec(current, queue@) == next_direction_spec(current, old(queue)@),
            queue_after_turn(current, queue@) == queue_after_turn(current, old(queue)@),
        decreases queue@.len(),
    {
        let ghost before = queue@;
        match queue.pop_front() {
            Some(d) => {
                assert(before.drop_first() == queue@);
                if d != current && d != current.opposite() {
                    return d;
                }
            },
            None => {
                return current;
            },
        }
    }
}

// ---------------------------------------------------------------------------
// Stepping
// ---------------------------------------------------------------------------

/// A head whose one-cell step cannot overflow `i32`.
pub open spec fn head_can_step(head: Cell) -> bool {
    i32::MIN < head.x < i32::MAX && i32::MIN < head.y < i32::MAX
}

/// The cell a head at `head` moves into heading `d`, or `None` when it leaves
/// the field and walls don't wrap. With `wrap`, edge exits reappear on the far
/// side.
pub open spec fn next_head(head: Cell, d: Direction, wrap: bool) -> Option<Cell> {
    let nx = head.x + delta_x(d);
    let ny = head.y + delta_y(d);
    if wrap {
        Some(Cell { x: (nx % (GRID_COLS as int)) as i32, y: (ny % (GRID_ROWS as int)) as i32 })
    } else if 0 <= nx < GRID_COLS && 0 <= ny < GRID_ROWS {
        Some(Cell { x: nx as i32, y: ny as i32 })
    } else {
        None
    }
}

/// True if `c` is a live body cell of `cells` this tick: a snake that is not
/// eating vacates its tail, so the tail is excluded then.
pub open spec fn body_occupies(cells: Seq<Cell>, eating: bool, c: Cell) -> bool {
    let n = if eating { cells.len() as int } else { cells.len() - 1 };
    cells.take(n).contains(c)
}

/// The result of one single-player step and the body afterwards.
pub open spec fn step_spec(cells: Seq<Cell>, d: Direction, foods: Seq<Cell>, wrap: bool) -> (
    StepOutcome,
    Seq<Cell>,
) {
    match next_head(cells[0], d, wrap) {
        None => (StepOutcome::Died(DeathCause::Wall), cells),
        Some(h) => {
            let eating = foods.contains(h);
            if body_occupies(cells, eating, h) {
                (StepOutcome::Died(DeathCause::SelfBite), cells)
            } else if eating {
                (StepOutcome::Ate(h), seq![h] + cells)
            } else {
                (StepOutcome::Moved, seq![h] + cells.drop_last())
            }
        },
    }
}

/// Whether `s` holds `c`.
pub fn contains_cell(s: &[Cell], c: Cell) -> (b: bool)
    ensures
        b == s@.contains(c),
{
    let mut i: usize = 0;
    while i < s.len()
        invariant
            0 <= i <= s@.len(),
            forall|j: int| 0 <= j < i ==> s@[j] != c,
        decreases s@.len() - i,
    {
        if s[i] == c {
            assert(s@[i as int] == c);
            return true;
        }
        i = i + 1;
    }
    false
}

/// The cell a head moves into, or `None` when it leaves the field and walls
/// don't wrap.
fn step_head(cells: &VecDeque<Cell>, direction: Direction, wrap: bool) -> (r: Option<Cell>)
    requires
        cells@.len() > 0,
        head_can_step(cells@[0]),
    ensures
        r == next_head(cells@[0], direction, wrap),
        r matches Some(c) ==> cell_in_bounds(c),
{
    let head = cells[0];
    let step = direction.delta();
    let nx: i32 = head.x + step.x;
    let ny: i32 = head.y + step.y;
    if wrap {
        Some(Cell { x: wrap_coord(nx, GRID_COLS), y: wrap_coord(ny, GRID_ROWS) })
    } else if 0 <= nx && nx < GRID_COLS && 0 <= ny && ny < GRID_ROWS {
        Some(Cell { x: nx, y: ny })
    } else {
        None
    }
}

/// True if `cell` is a live body cell of a snake this tick. A snake that is
/// not eating vacates its tail, so that cell is excluded.
fn occupies(cells: &VecDeque<Cell>, eating: bool, cell: Cell) -> (b: bool)
    requires
        cells@.len() > 0,
    ensures
        b == body_occupies(cells@, eating, cell),
{
    let body_len = if eating {
        cells.len()
    } else {
        cells.len() - 1
    };
    let ghost body = cells@.take(body_len as int);
    assert(body == cells@.take(if eating { cells@.len() as int } else { cells@.len() - 1 }));
    let mut i: usize = 0;
    while i < body_len
        invariant
            0 <= i <= body_len <= cells@.len(),
            body == cells@.take(body_len as int),
            body == cells@.take(if eating { cells@.len() as int } else { cells@.len() - 1 }),
            forall|j: int| 0 <= j < i ==> body[j] != cell,
        decreases body_len - i,
    {
        if cells[i] == cell {
            assert(body[i as int] == cells@[i as int]);
            assert(body.contains(cell));
            return true;
        }
        i = i + 1;
    }
    false
}

/// Advance the snake one cell in `direction`. `foods` are the live food
/// cells; `wrap` teleports edge exits to the far side instead of killing.
/// Mutates `cells` only on a survivable step.
pub fn step_snake(cells: &mut VecDeque<Cell>, direction: Direction, foods: &[Cell], wrap: bool) -> (out: StepOutcome)
    requires
        old(cells)@.len() > 0,
        head_can_step(old(cells)@[0]),
    ensures
        (out, final(cells)@) == step_spec(old(cells)@, direction, foods@, wrap),
{
    let new_head = match step_head(cells, direction, wrap) {
        Some(h) => h,
        None => {
            return StepOutcome::Died(DeathCause::Wall);
        },
    };
    let eating = contains_cell(foods, new_head);
    if occupies(cells, eating, new_head) {
        return StepOutcome::Died(DeathCause::SelfBite);
    }
    let ghost before = cells@;
    cells.push_front(new_head);
    if eating {
        StepOutcome::Ate(new_head)
    } else {
        cells.pop_back();
        assert(cells@ =~= seq![new_head] + before.drop_last());
        StepOutcome::Moved
    }
}


/// A head that moves lands inside the playfield.
pub proof fn lemma_next_head_in_bounds(head: Cell, d: Direction, wrap: bool)
    ensures
        next_head(head, d, wrap) matches Some(c) ==> cell_in_bounds(c),
{
}

/// A step keeps the body well formed: a survivable step keeps the cells
/// distinct and on the field, a move keeps the length and an eat grows it by
/// exactly the new head, which was a pellet; a fatal step changes nothing.
pub proof fn lemma_step_keeps_the_body(cells: Seq<Cell>, d: Direction, foods: Seq<Cell>, wrap: bool)
    requires
        cells.len() > 0,
        cells.no_duplicates(),
        forall|i: int| 0 <= i < cells.len() ==> cell_in_bounds(#[trigger] cells[i]),
    ensures
        ({
            let (out, next) = step_spec(cells, d, foods, wrap);
            &&& next.no_duplicates()
            &&& forall|i: int| 0 <= i < next.len() ==> cell_in_bounds(#[trigger] next[i])
            &&& out is Died ==> next == cells
            &&& out is Moved ==> {
                &&& next.len() == cells.len()
                &&& next_head(cells[0], d, wrap) matches Some(h) && next[0] == h
                    && !foods.contains(h)
                &&& forall|i: int| 1 <= i < next.len() ==> next[i] == cells[i - 1]
            }
            &&& out matches StepOutcome::Ate(h) ==> {
                &&& next == seq![h] + cells
                &&& foods.contains(h)
                &&& !cells.contains(h)
                &&& next_head(cells[0], d, wrap) == Some(h)
            }
        }),
{
    lemma_next_head_in_bounds(cells[0], d, wrap);
    let (out, next) = step_spec(cells, d, foods, wrap);
    if let Some(h) = next_head(cells[0], d, wrap) {
        let eating = foods.contains(h);
        if !body_occupies(cells, eating, h) {
            if eating {
                assert(cells.take(cells.len() as int) =~= cells);
                assert forall|a: int, b: int| 0 <= a < b < next.len() implies next[a] != next[b] by {
                    if a == 0 {
                        assert(next[b] == cells[b - 1]);
                    }
                }
            } else {
                let body = cells.take(cells.len() - 1);
                assert(cells.drop_last() =~= body);
                assert forall|a: int, b: int| 0 <= a < b < next.len() implies next[a] != next[b] by {
                    if a == 0 {
                        assert(next[b] == body[b - 1]);
                    } else {
                        assert(next[a] == cells[a - 1]);
                        assert(next[b] == cells[b - 1]);
                    }
                }
                assert forall|i: int| 1 <= i < next.len() implies next[i] == cells[i - 1] by {}
            }
            assert forall|i: int| 0 <= i < next.len() implies cell_in_bounds(#[trigger] next[i]) by {
                if i > 0 {
                    assert(next[i] == cells[i - 1]);
                }
            }
        }
    }
}

// ---------------------------------------------------------------------------
// Versus
// ---------------------------------------------------------------------------

/// Whether a head stepping to `h` lands on food.
pub open spec fn eats(h: Option<Cell>, foods: Seq<Cell>) -> bool {
    h matches Some(c) && foods.contains(c)
}

/// The versus outcome for the snake with body `own` heading `own_dir`, resolved
/// against the other snake `other` heading `other_dir`, both from the pre-step
/// board.
pub open spec fn versus_outcome(
    own: Seq<Cell>,
    own_dir: Direction,
    other: Seq<Cell>,
    other_dir: Direction,
    foods: Seq<Cell>,
    wrap: bool,
) -> VersusStep {
    let h = next_head(own[0], own_dir, wrap);
    let oh = next_head(other[0], other_dir, wrap);
    match h {
        None => VersusStep::Died(DeathCause::Wall),
        Some(head) => if oh == Some(head) {
            VersusStep::Died(DeathCause::HeadOn)
        } else if body_occupies(own, eats(h, foods), head) {
            VersusStep::Died(DeathCause::SelfBite)
        } else if body_occupies(other, eats(oh, foods), head) {
            VersusStep::Died(DeathCause::OtherSnake)
        } else if eats(h, foods) {
            VersusStep::Ate(head)
        } else {
            VersusStep::Moved(head)
        },
    }
}

/// Whether `h` is `Some(c)` with `c` on a food cell.
fn eats_food(h: Option<Cell>, foods: &[Cell]) -> (b: bool)
    ensures
        b == eats(h, foods@),
{
    match h {
        Some(c) => contains_cell(foods, c),
        None => false,
    }
}

/// One snake's versus outcome given both candidate heads and eating flags.
fn resolve_one(
    own: &VecDeque<Cell>,
    other: &VecDeque<Cell>,
    head: Option<Cell>,
    other_head: Option<Cell>,
    eating: bool,
    other_eating: bool,
) -> (r: VersusStep)
    requires
        own@.len() > 0,
        other@.len() > 0,
    ensures
        r == (match head {
            None => VersusStep::Died(DeathCause::Wall),
            Some(h) => if other_head == Some(h) {
                VersusStep::Died(DeathCause::HeadOn)
            } else if body_occupies(own@, eating, h) {
                VersusStep::Died(DeathCause::SelfBite)
            } else if body_occupies(other@, other_eating, h) {
                VersusStep::Died(DeathCause::OtherSnake)
            } else if eating {
                VersusStep::Ate(h)
            } else {
                VersusStep::Moved(h)
            },
        }),
{
    match head {
        None => VersusStep::Died(DeathCause::Wall),
        Some(h) => {
            if other_head == Some(h) {
                VersusStep::Died(DeathCause::HeadOn)
            } else if occupies(own, eating, h) {
                VersusStep::Died(DeathCause::SelfBite)
            } else if occupies(other, other_eating, h) {
                // Covers the swap case too: each old head is still a body cell of
                // the other snake, so passing through each other is fatal.
                VersusStep::Died(DeathCause::OtherSnake)
            } else if eating {
                VersusStep::Ate(h)
            } else {
                VersusStep::Moved(h)
            }
        },
    }
}

/// Resolve one versus tick for both snakes from their pre-step state. A head
/// dies if it leaves the field (walls don't wrap), both heads target the same
/// cell (head-on), or it lands on any live body cell of either snake, each
/// body excluding that snake's vacating tail when it isn't eating. No state is
/// mutated: the caller advances only the survivors.
pub fn resolve_versus_step(
    cells: [&VecDeque<Cell>; 2],
    directions: [Direction; 2],
    foods: &[Cell],
    wrap: bool,
) -> (r: [VersusStep; 2])
    requires
        cells[0]@.len() > 0,
        cells[1]@.len() > 0,
        head_can_step(cells[0]@[0]),
        head_can_step(cells[1]@[0]),
    ensures
        r[0] == versus_outcome(cells[0]@, directions[0], cells[1]@, directions[1], foods@, wrap),
        r[1] == versus_outcome(cells[1]@, directions[1], cells[0]@, directions[0], foods@, wrap),
{
    let a = cells[0];
    let b = cells[1];
    let head_a = step_head(a, directions[0], wrap);
    let head_b = step_head(b, directions[1], wrap);
    let eating_a = eats_food(head_a, foods);
    let eating_b = eats_food(head_b, foods);
    let ra = resolve_one(a, b, head_a, head_b, eating_a, eating_b);
    let rb = resolve_one(b, a, head_b, head_a, eating_b, eating_a);
    [ra, rb]
}

/// The body after a versus step: a move drops the tail, an eat keeps it, a
/// death leaves the body where it was.
pub open spec fn body_after(cells: Seq<Cell>, step: VersusStep) -> Seq<Cell> {
    match step {
        VersusStep::Moved(h) => seq![h] + cells.drop_last(),
        VersusStep::Ate(h) => seq![h] + cells,
        VersusStep::Died(_) => cells,
    }
}

/// A versus step keeps each body well formed, the same way a single-player
/// step does: the new head is on the field and off the body that stays, a
/// moving head is not on a pellet and an eating head is.
pub proof fn lemma_versus_step_keeps_the_body(
    own: Seq<Cell>,
    d: Direction,
    other: Seq<Cell>,
    od: Direction,
    foods: Seq<Cell>,
    wrap: bool,
)
    requires
        own.len() > 0,
        own.no_duplicates(),
        forall|i: int| 0 <= i < own.len() ==> cell_in_bounds(#[trigger] own[i]),
    ensures
        ({
            let step = versus_outcome(own, d, other, od, foods, wrap);
            let next = body_after(own, step);
            &&& next.no_duplicates()
            &&& forall|i: int| 0 <= i < next.len() ==> cell_in_bounds(#[trigger] next[i])
            &&& step matches VersusStep::Moved(h) ==> {
                &&& next.len() == own.len()
                &&& !foods.contains(h)
                &&& next_head(own[0], d, wrap) == Some(h)
                &&& forall|i: int| 1 <= i < next.len() ==> next[i] == own[i - 1]
            }
            &&& step matches VersusStep::Ate(h) ==> {
                &&& foods.contains(h)
                &&& !own.contains(h)
                &&& next_head(own[0], d, wrap) == Some(h)
                &&& next_head(other[0], od, wrap) != Some(h)
            }
        }),
{
    let step = versus_outcome(own, d, other, od, foods, wrap);
    let next = body_after(own, step);
    lemma_next_head_in_bounds(own[0], d, wrap);
    match step {
        VersusStep::Moved(h) => {
            let body = own.take(own.len() - 1);
            assert(own.drop_last() =~= body);
            assert forall|a: int, b: int| 0 <= a < b < next.len() implies next[a] != next[b] by {
                if a == 0 {
                    assert(next[b] == body[b - 1]);
                } else {
                    assert(next[a] == own[a - 1]);
                    assert(next[b] == own[b - 1]);
                }
            }
            assert forall|i: int| 0 <= i < next.len() implies cell_in_bounds(#[trigger] next[i]) by {
                if i > 0 {
                    assert(next[i] == own[i - 1]);
                }
            }
        },
        VersusStep::Ate(h) => {
            assert(own.take(own.len() as int) =~= own);
            assert forall|a: int, b: int| 0 <= a < b < next.len() implies next[a] != next[b] by {
                if a == 0 {
                    assert(next[b] == own[b - 1]);
                }
            }
            assert forall|i: int| 0 <= i < next.len() implies cell_in_bounds(#[trigger] next[i]) by {
                if i > 0 {
                    assert(next[i] == own[i - 1]);
                }
            }
        },
        VersusStep::Died(_) => {},
    }
}

/// The bodies `a` and `b` share no cell.
pub open spec fn apart(a: Seq<Cell>, b: Seq<Cell>) -> bool {
    forall|i: int, j: int| 0 <= i < a.len() && 0 <= j < b.len() ==> #[trigger] a[i] != #[trigger] b[j]
}

/// Two snakes that share no cell and both survive a versus tick still share no
/// cell afterwards.
pub proof fn lemma_survivors_stay_apart(
    a: Seq<Cell>,
    da: Direction,
    b: Seq<Cell>,
    db: Direction,
    foods: Seq<Cell>,
    wrap: bool,
)
    requires
        a.len() > 0,
        b.len() > 0,
        apart(a, b),
        !(versus_outcome(a, da, b, db, foods, wrap) is Died),
        !(versus_outcome(b, db, a, da, foods, wrap) is Died),
    ensures
        apart(
            body_after(a, versus_outcome(a, da, b, db, foods, wrap)),
            body_after(b, versus_outcome(b, db, a, da, foods, wrap)),
        ),
{
    let sa = versus_outcome(a, da, b, db, foods, wrap);
    let sb = versus_outcome(b, db, a, da, foods, wrap);
    let ha = next_head(a[0], da, wrap)->0;
    let hb = next_head(b[0], db, wrap)->0;
    let na = if eats(next_head(a[0], da, wrap), foods) { a.len() as int } else { a.len() - 1 };
    let nb = if eats(next_head(b[0], db, wrap), foods) { b.len() as int } else { b.len() - 1 };
    let a2 = body_after(a, sa);
    let b2 = body_after(b, sb);
    assert(a2 =~= seq![ha] + a.take(na));
    assert(b2 =~= seq![hb] + b.take(nb));
    assert forall|i: int, j: int| 0 <= i < a2.len() && 0 <= j < b2.len() implies #[trigger] a2[i]
        != #[trigger] b2[j] by {
        if i == 0 && j > 0 {
            assert(b2[j] == b.take(nb)[j - 1]);
        } else if i > 0 && j == 0 {
            assert(a2[i] == a.take(na)[i - 1]);
        } else if i > 0 && j > 0 {
            assert(a2[i] == a[i - 1]);
            assert(b2[j] == b[j - 1]);
        }
    }
}

/// The death cause in a versus step, if the snake died.
pub open spec fn death_of(s: VersusStep) -> Option<DeathCause> {
    match s {
        VersusStep::Died(c) => Some(c),
        _ => None,
    }
}

/// Round outcome from a resolved versus tick.
pub open spec fn versus_result_spec(a: VersusStep, b: VersusStep) -> Option<GameResult> {
    match (death_of(a), death_of(b)) {
        (Some(_), Some(_)) => Some(GameResult::Draw),
        (Some(c), None) => Some(GameResult::Winner { player: 2, loser_cause: c }),
        (None, Some(c)) => Some(GameResult::Winner { player: 1, loser_cause: c }),
        (None, None) => None,
    }
}

fn cause_of(step: VersusStep) -> (c: Option<DeathCause>)
    ensures
        c == death_of(step),
{
    match step {
        VersusStep::Died(c) => Some(c),
        _ => None,
    }
}

/// Round outcome from a resolved versus tick: `None` while both snakes live,
/// otherwise the first-death result (lone survivor wins, simultaneous = draw).
pub fn versus_result(steps: &[VersusStep; 2]) -> (r: Option<GameResult>)
    ensures
        r == versus_result_spec(steps[0], steps[1]),
        r is None <==> (death_of(steps[0]) is None && death_of(steps[1]) is None),
        r == Some(GameResult::Draw) <==> (death_of(steps[0]) is Some && death_of(
            steps[1],
        ) is Some),
{
    match (cause_of(steps[0]), cause_of(steps[1])) {
        (Some(_), Some(_)) => Some(GameResult::Draw),
        (Some(c), None) => Some(GameResult::Winner { player: 2, loser_cause: c }),
        (None, Some(c)) => Some(GameResult::Winner { player: 1, loser_cause: c }),
        (None, None) => None,
    }
}

/// Versus resolution treats both snakes alike: swapping the two snakes swaps
/// their outcomes, and the round result then names the other player.
pub proof fn lemma_versus_is_symmetric(
    a: Seq<Cell>,
    da: Direction,
    b: Seq<Cell>,
    db: Direction,
    foods: Seq<Cell>,
    wrap: bool,
)
    ensures
        ({
            let sa = versus_outcome(a, da, b, db, foods, wrap);
            let sb = versus_outcome(b, db, a, da, foods, wrap);
            &&& versus_result_spec(sa, sb) == (match versus_result_spec(sb, sa) {
                Some(GameResult::Winner { player, loser_cause }) => Some(
                    GameResult::Winner { player: (3 - player) as u8, loser_cause },
                ),
                other => other,
            })
        }),
{
}

/// A mutual head-on always kills both snakes, so it always ends in a draw.
pub proof fn lemma_head_on_is_a_draw(
    a: Seq<Cell>,
    da: Direction,
    b: Seq<Cell>,
    db: Direction,
    foods: Seq<Cell>,
    wrap: bool,
)
    requires
        next_head(a[0], da, wrap) is Some,
        next_head(a[0], da, wrap) == next_head(b[0], db, wrap),
    ensures
        versus_outcome(a, da, b, db, foods, wrap) == VersusStep::Died(DeathCause::HeadOn),
        versus_outcome(b, db, a, da, foods, wrap) == VersusStep::Died(DeathCause::HeadOn),
        versus_result_spec(
            versus_outcome(a, da, b, db, foods, wrap),
            versus_outcome(b, db, a, da, foods, wrap),
        ) == Some(GameResult::Draw),
{
}

/// Two snakes passing through each other (each head moving onto the other's
/// current head) both die, so the round is a draw: an old head is still a live
/// body cell of its snake.
pub proof fn lemma_swap_kills_both(
    a: Seq<Cell>,
    da: Direction,
    b: Seq<Cell>,
    db: Direction,
    foods: Seq<Cell>,
    wrap: bool,
)
    requires
        a.len() >= 2,
        b.len() >= 2,
        next_head(a[0], da, wrap) == Some(b[0]),
        next_head(b[0], db, wrap) == Some(a[0]),
    ensures
        versus_outcome(a, da, b, db, foods, wrap) is Died,
        versus_outcome(b, db, a, da, foods, wrap) is Died,
        versus_result_spec(
            versus_outcome(a, da, b, db, foods, wrap),
            versus_outcome(b, db, a, da, foods, wrap),
        ) == Some(GameResult::Draw),
{
    let eb = eats(next_head(b[0], db, wrap), foods);
    let ea = eats(next_head(a[0], da, wrap), foods);
    let nb = if eb { b.len() as int } else { b.len() - 1 };
    let na = if ea { a.len() as int } else { a.len() - 1 };
    assert(b.take(nb)[0] == b[0]);
    assert(a.take(na)[0] == a[0]);
}

// ---------------------------------------------------------------------------
// Spawn layout
// ---------------------------------------------------------------------------

/// Head cell and heading of versus snake `index`.
pub open spec fn versus_spawn_spec(index: usize) -> (Cell, Direction) {
    if index == 0 {
        (Cell { x: 6, y: 5 }, Direction::Right)
    } else {
        (Cell { x: 19, y: 10 }, Direction::Left)
    }
}

/// Head cell and heading for versus snake `index`: player 1 starts lower-left
/// heading right, player 2 upper-right heading left, on disjoint rows so they
/// never spawn into a head-on.
pub fn versus_spawn(index: usize) -> (r: (Cell, Direction))
    ensures
        r == versus_spawn_spec(index),
{
    match index {
        0 => (Cell { x: GRID_COLS / 4, y: GRID_ROWS / 3 }, Direction::Right),
        _ => (Cell { x: 3 * GRID_COLS / 4, y: 2 * GRID_ROWS / 3 }, Direction::Left),
    }
}

/// The `i`-th starting body cell behind a head at `head` moving `d`.
pub open spec fn body_cell(head: Cell, d: Direction, i: int) -> Cell {
    Cell { x: (head.x - delta_x(d) * i) as i32, y: (head.y - delta_y(d) * i) as i32 }
}

/// The starting body is representable: its last cell fits in `i32`.
pub open spec fn body_fits(head: Cell, d: Direction, length: usize) -> bool {
    &&& length <= i32::MAX
    &&& i32::MIN <= head.x - delta_x(d) * (length - 1) <= i32::MAX
    &&& i32::MIN <= head.y - delta_y(d) * (length - 1) <= i32::MAX
}

/// The starting body cells for a snake whose head is at `head` moving
/// `direction`: head first, the rest trailing opposite the heading.
pub fn starting_body(head: Cell, direction: Direction, length: usize) -> (r: Vec<Cell>)
    requires
        body_fits(head, direction, length),
    ensures
        r@.len() == length,
        forall|i: int| 0 <= i < length ==> r@[i] == body_cell(head, direction, i),
{
    let step = direction.delta();
    let n: i32 = length as i32;
    let mut r: Vec<Cell> = Vec::new();
    let mut i: i32 = 0;
    while i < n
        invariant
            0 <= i <= n,
            n == length,
            step.x == delta_x(direction),
            step.y == delta_y(direction),
            body_fits(head, direction, length),
            r@.len() == i,
            forall|j: int| 0 <= j < i ==> r@[j] == body_cell(head, direction, j),
        decreases n - i,
    {
        assert(i32::MIN <= head.x - step.x * i <= i32::MAX && i32::MIN <= head.y - step.y * i
            <= i32::MAX && -i32::MAX <= step.x * i <= i32::MAX && -i32::MAX <= step.y * i
            <= i32::MAX) by (nonlinear_arith)
            requires
                0 <= i < n,
                n == length,
                -1 <= step.x <= 1,
                -1 <= step.y <= 1,
                i32::MIN <= head.x - step.x * (length - 1) <= i32::MAX,
                i32::MIN <= head.y - step.y * (length - 1) <= i32::MAX,
                i32::MIN <= head.x <= i32::MAX,
                i32::MIN <= head.y <= i32::MAX,
        ;
        r.push(Cell { x: head.x - step.x * i, y: head.y - step.y * i });
        i = i + 1;
    }
    r
}

/// The two versus spawns are on the field, on different rows, face opposite
/// ways, and their starting bodies share no cell.
pub proof fn lemma_versus_spawns_are_disjoint(length: usize)
    requires
        1 <= length <= 7,
    ensures
        ({
            let (h0, d0) = versus_spawn_spec(0);
            let (h1, d1) = versus_spawn_spec(1);
            &&& d0 == opposite_of(d1)
            &&& h0.y != h1.y
            &&& forall|i: int|
                0 <= i < length ==> cell_in_bounds(#[trigger] body_cell(h0, d0, i))
                    && cell_in_bounds(body_cell(h1, d1, i))
            &&& forall|i: int, j: int|
                0 <= i < length && 0 <= j < length ==> #[trigger] body_cell(h0, d0, i)
                    != #[trigger] body_cell(h1, d1, j)
        }),
{
}

// ---------------------------------------------------------------------------
// Food placement
// ---------------------------------------------------------------------------

/// The cell with row-major index `idx` (`idx = y * GRID_COLS + x`).
pub open spec fn index_cell(idx: int) -> Cell {
    Cell { x: (idx % (GRID_COLS as int)) as i32, y: (idx / (GRID_COLS as int)) as i32 }
}

/// The `i`-th cell probed when placement starts at `hashed % GRID_CELLS`.
pub open spec fn probe_cell(hashed: u32, i: int) -> Cell {
    index_cell((hashed % GRID_CELLS + i) % (GRID_CELLS as int))
}

/// Food placement with the seed's hash `hashed`: the first cell, in probe order
/// from `hashed % GRID_CELLS`, that `occupied` does not hold.
pub open spec fn place_food_spec(occupied: Seq<Cell>, hashed: u32) -> Option<Cell> {
    if exists|i: int| 0 <= i < GRID_CELLS && !occupied.contains(#[trigger] probe_cell(hashed, i)) {
        let i = choose|i: int|
            0 <= i < GRID_CELLS && !occupied.contains(#[trigger] probe_cell(hashed, i)) && forall|
                j: int,
            |
                0 <= j < i ==> occupied.contains(#[trigger] probe_cell(hashed, j));
        Some(probe_cell(hashed, i))
    } else {
        None
    }
}

/// The row-major index of an in-bounds cell names that cell.
pub proof fn lemma_index_cell_of(c: Cell)
    requires
        cell_in_bounds(c),
    ensures
        index_cell(c.y * GRID_COLS + c.x) == c,
        0 <= c.y * GRID_COLS + c.x < GRID_CELLS,
{
    let idx = c.y * GRID_COLS + c.x;
    assert(0 <= idx < 416) by (nonlinear_arith)
        requires
            0 <= c.x < 26,
            0 <= c.y < 16,
            idx == c.y * 26 + c.x,
    ;
    vstd::arithmetic::div_mod::lemma_fundamental_div_mod_converse(idx, 26, c.y as int, c.x as int);
}

/// Every in-bounds cell is probed at some step.
proof fn lemma_probe_reaches(hashed: u32, c: Cell)
    requires
        cell_in_bounds(c),
    ensures
        exists|i: int| 0 <= i < GRID_CELLS && #[trigger] probe_cell(hashed, i) == c,
{
    lemma_index_cell_of(c);
    let idx = c.y * GRID_COLS + c.x;
    let s = hashed % GRID_CELLS;
    let i = if idx >= s { idx - s } else { idx + GRID_CELLS - s };
    assert((s + i) % 416 == idx) by {
        if idx >= s {
            assert(s + i == idx);
        } else {
            assert(s + i == idx + 416);
            vstd::arithmetic::div_mod::lemma_fundamental_div_mod_converse(idx + 416, 416, 1, idx);
        }
    }
    assert(probe_cell(hashed, i) == c);
}

/// Every probed cell is inside the playfield.
proof fn lemma_index_cell_in_bounds(idx: int)
    requires
        0 <= idx < GRID_CELLS,
    ensures
        cell_in_bounds(index_cell(idx)),
{
    assert(0 <= idx / 26 < 16) by (nonlinear_arith)
        requires
            0 <= idx < 416,
    ;
}

/// Deterministic food placement from the hash of a seed: start at
/// `hashed % GRID_CELLS`, then linear-probe forward to the first free cell.
/// Returns `None` only when the board is completely occupied.
pub fn place_food_at(occupied: &[Cell], hashed: u32) -> (r: Option<Cell>)
    ensures
        r == place_food_spec(occupied@, hashed),
        r matches Some(c) ==> cell_in_bounds(c) && !occupied@.contains(c),
        r is None <==> forall|c: Cell| cell_in_bounds(c) ==> occupied@.contains(c),
{
    let total: u32 = GRID_CELLS;
    let start: u32 = hashed % total;
    let mut i: u32 = 0;
    while i < total
        invariant
            0 <= i <= total,
            total == GRID_CELLS,
            start == hashed % GRID_CELLS,
            forall|j: int| 0 <= j < i ==> occupied@.contains(#[trigger] probe_cell(hashed, j)),
        decreases total - i,
    {
        let idx: u32 = (start + i) % total;
        let cell = Cell { x: (idx % 26) as i32, y: (idx / 26) as i32 };
        assert(cell == probe_cell(hashed, i as int));
        if !contains_cell(occupied, cell) {
            proof {
                lemma_index_cell_in_bounds(idx as int);
                assert(!occupied@.contains(probe_cell(hashed, i as int)));
                assert(forall|j: int| 0 <= j < i ==> occupied@.contains(#[trigger] probe_cell(hashed, j)));
                let k = choose|k: int|
                    0 <= k < GRID_CELLS && !occupied@.contains(#[trigger] probe_cell(hashed, k))
                        && forall|j: int|
                        0 <= j < k ==> occupied@.contains(#[trigger] probe_cell(hashed, j));
                if k < i {
                    assert(occupied@.contains(probe_cell(hashed, k)));
                } else if k > i {
                    assert(occupied@.contains(probe_cell(hashed, i as int)));
                }
                assert(k == i);
                assert(cell_in_bounds(cell));
            }
            return Some(cell);
        }
        i = i + 1;
    }
    proof {
        assert forall|c: Cell| cell_in_bounds(c) implies occupied@.contains(c) by {
            lemma_probe_reaches(hashed, c);
        }
    }
    None
}


// ---------------------------------------------------------------------------
// Laws of the rules, stated directly in terms of inputs and results
// ---------------------------------------------------------------------------

/// Column step of a heading: `Right` is +1, `Left` is -1.
pub open spec fn step_dx(d: Direction) -> int {
    if d == Direction::Right {
        1
    } else if d == Direction::Left {
        -1
    } else {
        0
    }
}

/// Row step of a heading: `Up` is +1 (row 0 is the bottom row), `Down` is -1.
pub open spec fn step_dy(d: Direction) -> int {
    if d == Direction::Up {
        1
    } else if d == Direction::Down {
        -1
    } else {
        0
    }
}

/// Where a head goes. With wrapping walls the head moves one cell and each
/// coordinate is taken modulo the grid size (Euclidean remainder), so an edge
/// exit reappears on the far side and a step never lands back on the head.
/// Without wrapping the head moves one cell, or hits the wall (`None`) when
/// that cell is off the field.
pub proof fn lemma_next_head_moves_one_cell(h: Cell, d: Direction)
    ensures
        next_head(h, d, true) == Some(
            Cell {
                x: ((h.x + step_dx(d)) % 26) as i32,
                y: ((h.y + step_dy(d)) % 16) as i32,
            },
        ),
        next_head(h, d, true) != Some(h),
        0 <= h.x + step_dx(d) < 26 && 0 <= h.y + step_dy(d) < 16 ==> next_head(h, d, false)
            == Some(Cell { x: (h.x + step_dx(d)) as i32, y: (h.y + step_dy(d)) as i32 }),
        !(0 <= h.x + step_dx(d) < 26 && 0 <= h.y + step_dy(d) < 16) ==> next_head(h, d, false)
            is None,
        next_head(h, d, false) != Some(h),
{
    let nx = h.x + step_dx(d);
    let ny = h.y + step_dy(d);
    let wx = nx % 26;
    let wy = ny % 16;
    assert(0 <= wx < 26 && 0 <= wy < 16);
    if d == Direction::Right || d == Direction::Left {
        assert(ny == h.y);
        if wx == h.x {
            // nx and h.x are congruent mod 26 yet differ by one.
            assert(0 <= h.x < 26);
            assert(h.x % 26 == h.x);
            assert((nx - h.x) % 26 == 0) by {
                vstd::arithmetic::div_mod::lemma_sub_mod_noop(nx, h.x as int, 26);
            }
            assert(false);
        }
    } else {
        assert(nx == h.x);
        if wy == h.y {
            assert(0 <= h.y < 16);
            assert(h.y % 16 == h.y);
            assert((ny - h.y) % 16 == 0) by {
                vstd::arithmetic::div_mod::lemma_sub_mod_noop(ny, h.y as int, 16);
            }
            assert(false);
        }
    }
}

/// A single-player step, case by case: off the field without wrapping it hits
/// the wall; onto a pellet it bites itself if the pellet cell is any body cell
/// (the tail stays on a growth tick) and otherwise grows by the new head;
/// elsewhere it bites itself if the cell is a body cell other than the tail
/// (which vacates) and otherwise moves, dropping the tail. Fatal steps leave
/// the body unchanged.
pub proof fn lemma_step_cases(cells: Seq<Cell>, d: Direction, foods: Seq<Cell>, wrap: bool)
    requires
        cells.len() > 0,
    ensures
        ({
            let (out, next) = step_spec(cells, d, foods, wrap);
            &&& next_head(cells[0], d, wrap) is None ==> out == StepOutcome::Died(DeathCause::Wall)
                && next == cells
            &&& next_head(cells[0], d, wrap) is Some ==> ({
                let c = next_head(cells[0], d, wrap)->0;
                if foods.contains(c) {
                    if cells.contains(c) {
                        out == StepOutcome::Died(DeathCause::SelfBite) && next == cells
                    } else {
                        out == StepOutcome::Ate(c) && next == seq![c] + cells
                    }
                } else if cells.drop_last().contains(c) {
                    out == StepOutcome::Died(DeathCause::SelfBite) && next == cells
                } else {
                    out == StepOutcome::Moved && next == seq![c] + cells.drop_last()
                }
            })
        }),
{
    assert(cells.take(cells.len() as int) =~= cells);
    assert(cells.take(cells.len() - 1) =~= cells.drop_last());
}

/// A versus step, case by case, from the pre-step board: off the field it hits
/// the wall; both heads on one cell is a head-on; a cell of the snake's own
/// body (its tail excepted unless it eats) is a self-bite; a cell of the other
/// body (its tail excepted unless the other eats) is fatal; otherwise the
/// snake eats the pellet there or moves.
pub proof fn lemma_versus_cases(
    own: Seq<Cell>,
    d: Direction,
    other: Seq<Cell>,
    od: Direction,
    foods: Seq<Cell>,
    wrap: bool,
)
    requires
        own.len() > 0,
        other.len() > 0,
    ensures
        ({
            let r = versus_outcome(own, d, other, od, foods, wrap);
            let h = next_head(own[0], d, wrap);
            let oh = next_head(other[0], od, wrap);
            let own_live = if h matches Some(c) && foods.contains(c) {
                own
            } else {
                own.drop_last()
            };
            let other_live = if oh matches Some(c) && foods.contains(c) {
                other
            } else {
                other.drop_last()
            };
            &&& h is None ==> r == VersusStep::Died(DeathCause::Wall)
            &&& h is Some ==> ({
                let c = h->0;
                if oh == Some(c) {
                    r == VersusStep::Died(DeathCause::HeadOn)
                } else if own_live.contains(c) {
                    r == VersusStep::Died(DeathCause::SelfBite)
                } else if other_live.contains(c) {
                    r == VersusStep::Died(DeathCause::OtherSnake)
                } else if foods.contains(c) {
                    r == VersusStep::Ate(c)
                } else {
                    r == VersusStep::Moved(c)
                }
            })
        }),
{
    assert(own.take(own.len() as int) =~= own);
    assert(own.take(own.len() - 1) =~= own.drop_last());
    assert(other.take(other.len() as int) =~= other);
    assert(other.take(other.len() - 1) =~= other.drop_last());
}

/// In versus a snake may chase its own tail just as in single player: stepping
/// onto its own last cell, with no pellet there, when that cell is not also
/// another of its body cells and the other snake neither heads there nor lies
/// there, it survives and moves onto it.
pub proof fn lemma_versus_own_tail_is_free(
    own: Seq<Cell>,
    d: Direction,
    other: Seq<Cell>,
    od: Direction,
    foods: Seq<Cell>,
    wrap: bool,
)
    requires
        own.len() > 0,
        other.len() > 0,
        next_head(own[0], d, wrap) == Some(own.last()),
        !own.drop_last().contains(own.last()),
        !foods.contains(own.last()),
        next_head(other[0], od, wrap) != Some(own.last()),
        !other.contains(own.last()),
    ensures
        versus_outcome(own, d, other, od, foods, wrap) == VersusStep::Moved(own.last()),
{
    lemma_versus_cases(own, d, other, od, foods, wrap);
    let oh = next_head(other[0], od, wrap);
    let other_live = if oh matches Some(c) && foods.contains(c) {
        other
    } else {
        other.drop_last()
    };
    if other_live.contains(own.last()) {
        let k = choose|k: int| 0 <= k < other_live.len() && other_live[k] == own.last();
        assert(other[k] == own.last());
    }
}

/// When the other snake neither heads for nor lies on the cell a snake steps
/// into, versus resolution agrees with the single-player step on that board.
pub proof fn lemma_versus_agrees_with_single_step(
    own: Seq<Cell>,
    d: Direction,
    other: Seq<Cell>,
    od: Direction,
    foods: Seq<Cell>,
    wrap: bool,
)
    requires
        own.len() > 0,
        other.len() > 0,
        next_head(own[0], d, wrap) is Some ==> next_head(other[0], od, wrap) != next_head(
            own[0],
            d,
            wrap,
        ) && !other.contains(next_head(own[0], d, wrap)->0),
    ensures
        versus_outcome(own, d, other, od, foods, wrap) == (match step_spec(own, d, foods, wrap).0 {
            StepOutcome::Moved => VersusStep::Moved(next_head(own[0], d, wrap)->0),
            StepOutcome::Ate(c) => VersusStep::Ate(c),
            StepOutcome::Died(c) => VersusStep::Died(c),
        }),
{
    lemma_versus_cases(own, d, other, od, foods, wrap);
    lemma_step_cases(own, d, foods, wrap);
    if let Some(c) = next_head(own[0], d, wrap) {
        let oh = next_head(other[0], od, wrap);
        let other_live = if oh matches Some(x) && foods.contains(x) {
            other
        } else {
            other.drop_last()
        };
        if other_live.contains(c) {
            let k = choose|k: int| 0 <= k < other_live.len() && other_live[k] == c;
            assert(other[k] == c);
        }
    }
}

/// The round result names the survivor: when exactly one snake dies the other
/// player wins and the loser's cause is reported; both dying is a draw; both
/// living continues the round.
pub proof fn lemma_lone_survivor_wins(a: VersusStep, b: VersusStep)
    ensures
        forall|c: DeathCause|
            a == VersusStep::Died(c) && !(b is Died) ==> versus_result_spec(a, b) == Some(
                GameResult::Winner { player: 2, loser_cause: c },
            ),
        forall|c: DeathCause|
            b == VersusStep::Died(c) && !(a is Died) ==> versus_result_spec(a, b) == Some(
                GameResult::Winner { player: 1, loser_cause: c },
            ),
        a is Died && b is Died ==> versus_result_spec(a, b) == Some(GameResult::Draw),
        !(a is Died) && !(b is Died) ==> versus_result_spec(a, b) is None,
{
}

/// The heading after a tick: when the queue holds a turn that is neither the
/// current heading nor its reversal, the first such turn is taken and
/// everything up to it is consumed; otherwise the heading stays and the whole
/// queue is consumed.
pub proof fn lemma_next_direction_takes_the_first_legal_turn(
    current: Direction,
    queue: Seq<Direction>,
)
    ensures
        forall|i: int|
            0 <= i < queue.len() && queue[i] != current && queue[i] != opposite_of(current) && (
            forall|j: int|
                0 <= j < i ==> queue[j] == current || queue[j] == opposite_of(current))
                ==> next_direction_spec(current, queue) == queue[i] && queue_after_turn(
                current,
                queue,
            ) == queue.skip(i + 1),
        (forall|j: int| 0 <= j < queue.len() ==> queue[j] == current || queue[j] == opposite_of(current))
            ==> next_direction_spec(current, queue) == current && queue_after_turn(
            current,
            queue,
        ).len() == 0,
    decreases queue.len(),
{
    if queue.len() > 0 {
        let rest = queue.drop_first();
        lemma_next_direction_takes_the_first_legal_turn(current, rest);
        assert forall|i: int|
            0 <= i < queue.len() && queue[i] != current && queue[i] != opposite_of(current) && (
            forall|j: int|
                0 <= j < i ==> queue[j] == current || queue[j] == opposite_of(current))
                implies next_direction_spec(current, queue) == queue[i] && queue_after_turn(
            current,
            queue,
        ) == queue.skip(i + 1) by {
            if i > 0 {
                assert(queue[0] == current || queue[0] == opposite_of(current));
                assert(rest[i - 1] == queue[i]);
                assert forall|j: int| 0 <= j < i - 1 implies rest[j] == current || rest[j]
                    == opposite_of(current) by {
                    assert(rest[j] == queue[j + 1]);
                }
                assert(rest.skip(i) =~= queue.skip(i + 1));
            } else {
                assert(queue.drop_first() =~= queue.skip(1));
            }
        }
        if forall|j: int| 0 <= j < queue.len() ==> queue[j] == current || queue[j] == opposite_of(current) {
            assert forall|j: int| 0 <= j < rest.len() implies rest[j] == current || rest[j]
                == opposite_of(current) by {
                assert(rest[j] == queue[j + 1]);
            }
            assert(queue[0] == current || queue[0] == opposite_of(current));
        }
    }
}

} // verus!
