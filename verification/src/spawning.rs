//! Spawn plans: how many background clouds go into each cell of the sky
//! grid and how they are numbered, and which enemies are spawned into which
//! lane of the play area.

use vstd::prelude::*;

verus! {

/// The sky is split into a grid of cells, each with its own clouds.
pub const BACKGROUND_CLOUD_COLUMNS: usize = 10;
pub const BACKGROUND_CLOUD_ROWS: usize = 10;

/// Fewest and most clouds in one cell.
pub const BACKGROUND_CLOUDS_PER_SLOT_MIN: usize = 0;
pub const BACKGROUND_CLOUDS_PER_SLOT_MAX: usize = 4;

/// Number of enemies at the start of a game; each gets its own lane.
pub const ENEMY_COUNT: usize = 4;

/// One cloud to spawn: its number (from 1) and the grid cell it goes in.
#[derive(Clone, Copy, Debug, PartialEq, Eq, Structural)]
pub struct CloudSlot {
    pub cloud_number: usize,
    pub column: usize,
    pub row: usize,
}

/// `fastrand::usize` over `low..=high`: a random number between `low` and
/// `high`, both included. Only that range is claimed of the result.
#[verifier::external_body]
fn random_usize_inclusive(low: usize, high: usize) -> (value: usize)
    requires
        low <= high,
    ensures
        low <= value <= high,
{
    fastrand::usize(low..=high)
}

/// A requested cloud count limited to what one cell holds.
pub open spec fn spec_background_cloud_count(random_count: usize) -> usize {
    if random_count < BACKGROUND_CLOUDS_PER_SLOT_MIN {
        BACKGROUND_CLOUDS_PER_SLOT_MIN
    } else if random_count > BACKGROUND_CLOUDS_PER_SLOT_MAX {
        BACKGROUND_CLOUDS_PER_SLOT_MAX
    } else {
        random_count
    }
}

/// Limits a requested cloud count to what one cell holds.
pub fn background_cloud_count(random_count: usize) -> (count: usize)
    ensures
        count == spec_background_cloud_count(random_count),
{
    if random_count < BACKGROUND_CLOUDS_PER_SLOT_MIN {
        BACKGROUND_CLOUDS_PER_SLOT_MIN
    } else if random_count > BACKGROUND_CLOUDS_PER_SLOT_MAX {
        BACKGROUND_CLOUDS_PER_SLOT_MAX
    } else {
        random_count
    }
}

/// The clouds of the first `counts.len()` cells, taken row by row: each
/// cell gets its count (limited to the cell's maximum) of clouds, numbered
/// on from the clouds before it.
pub open spec fn spec_cloud_plan(counts: Seq<usize>) -> Seq<CloudSlot>
    decreases counts.len(),
{
    if counts.len() == 0 {
        Seq::empty()
    } else {
        let before = spec_cloud_plan(counts.drop_last());
        let cell = counts.len() - 1;
        before + Seq::new(
            spec_background_cloud_count(counts.last()) as nat,
            |k: int|
                CloudSlot {
                    cloud_number: (before.len() + 1 + k) as usize,
                    column: (cell % BACKGROUND_CLOUD_COLUMNS as int) as usize,
                    row: (cell / BACKGROUND_CLOUD_COLUMNS as int) as usize,
                },
        )
    }
}

/// A plan's clouds are numbered 1, 2, 3, ... in order, sit in cells of the
/// grid covered by the counts, and number at most four per cell.
pub proof fn lemma_cloud_plan_shape(counts: Seq<usize>)
    requires
        counts.len() <= BACKGROUND_CLOUD_ROWS * BACKGROUND_CLOUD_COLUMNS,
    ensures
        spec_cloud_plan(counts).len() <= BACKGROUND_CLOUDS_PER_SLOT_MAX * counts.len(),
        forall|k: int|
            0 <= k < spec_cloud_plan(counts).len() ==> {
                let slot = #[trigger] spec_cloud_plan(counts)[k];
                &&& slot.cloud_number == k + 1
                &&& slot.column < BACKGROUND_CLOUD_COLUMNS
                &&& slot.row < BACKGROUND_CLOUD_ROWS
                &&& slot.row * BACKGROUND_CLOUD_COLUMNS + slot.column < counts.len()
            },
    decreases counts.len(),
{
    if counts.len() > 0 {
        let prefix = counts.drop_last();
        lemma_cloud_plan_shape(prefix);
        let before = spec_cloud_plan(prefix);
        let plan = spec_cloud_plan(counts);
        let cell = counts.len() - 1;
        assert forall|k: int| 0 <= k < plan.len() implies ({
            let slot = #[trigger] plan[k];
            &&& slot.cloud_number == k + 1
            &&& slot.column < BACKGROUND_CLOUD_COLUMNS
            &&& slot.row < BACKGROUND_CLOUD_ROWS
            &&& slot.row * BACKGROUND_CLOUD_COLUMNS + slot.column < counts.len()
        }) by {
            if k < before.len() {
                assert(plan[k] == before[k]);
            } else {
                assert(cell / 10 * 10 + cell % 10 == cell);
            }
        }
    }
}

/// The clouds to spawn for the given per-cell counts (one count per cell,
/// row by row over the whole grid).
pub fn background_cloud_plan(counts: &[usize]) -> (plan: Vec<CloudSlot>)
    requires
        counts@.len() == BACKGROUND_CLOUD_ROWS * BACKGROUND_CLOUD_COLUMNS,
    ensures
        plan@ == spec_cloud_plan(counts@),
{
    let mut plan: Vec<CloudSlot> = Vec::new();
    let mut cloud_number: usize = 1;
    let mut cell: usize = 0;
    while cell < counts.len()
        invariant
            cell <= counts@.len() == BACKGROUND_CLOUD_ROWS * BACKGROUND_CLOUD_COLUMNS,
            plan@ == spec_cloud_plan(counts@.subrange(0, cell as int)),
            plan@.len() <= BACKGROUND_CLOUDS_PER_SLOT_MAX * cell,
            cloud_number == plan@.len() + 1,
        decreases counts@.len() - cell,
    {
        let row = cell / BACKGROUND_CLOUD_COLUMNS;
        let column = cell % BACKGROUND_CLOUD_COLUMNS;
        let cloud_count = background_cloud_count(counts[cell]);
        let ghost before = plan@;
        let mut k: usize = 0;
        while k < cloud_count
            invariant
                k <= cloud_count <= BACKGROUND_CLOUDS_PER_SLOT_MAX,
                before.len() <= BACKGROUND_CLOUDS_PER_SLOT_MAX * cell,
                cell < BACKGROUND_CLOUD_ROWS * BACKGROUND_CLOUD_COLUMNS,
                row == cell / BACKGROUND_CLOUD_COLUMNS,
                column == cell % BACKGROUND_CLOUD_COLUMNS,
                cloud_number == before.len() + 1 + k,
                plan@ == before + Seq::new(
                    k as nat,
                    |j: int|
                        CloudSlot {
                            cloud_number: (before.len() + 1 + j) as usize,
                            column: (cell % BACKGROUND_CLOUD_COLUMNS) as usize,
                            row: (cell / BACKGROUND_CLOUD_COLUMNS) as usize,
                        },
                ),
            decreases cloud_count - k,
        {
            plan.push(CloudSlot { cloud_number, column, row });
            cloud_number = cloud_number + 1;
            k = k + 1;
            assert(plan@ =~= before + Seq::new(
                k as nat,
                |j: int|
                    CloudSlot {
                        cloud_number: (before.len() + 1 + j) as usize,
                        column: (cell % BACKGROUND_CLOUD_COLUMNS) as usize,
                        row: (cell / BACKGROUND_CLOUD_COLUMNS) as usize,
                    },
            ));
        }
        assert(counts@.subrange(0, cell + 1).drop_last() =~= counts@.subrange(0, cell as int));
        cell = cell + 1;
    }
    assert(counts@.subrange(0, cell as int) =~= counts@);
    plan
}

/// Whether `count` is a result the random generator can give when a cell
/// asks it for a count over the cell's whole range, from the fewest to the
/// most clouds a cell holds.
pub closed spec fn drawn_cloud_count(count: usize) -> bool {
    call_ensures(
        random_usize_inclusive,
        (BACKGROUND_CLOUDS_PER_SLOT_MIN, BACKGROUND_CLOUDS_PER_SLOT_MAX),
        count,
    )
}

/// A count drawn for a cell lies in the cell's range.
pub proof fn lemma_drawn_cloud_count_in_range(count: usize)
    requires
        drawn_cloud_count(count),
    ensures
        BACKGROUND_CLOUDS_PER_SLOT_MIN <= count <= BACKGROUND_CLOUDS_PER_SLOT_MAX,
{
}

/// The clouds to spawn for a fresh sky: each cell, row by row, asks the
/// random generator for a count over the whole range of a cell, from the
/// fewest to the most clouds it holds, and the plan is the one
/// `background_cloud_plan` makes of those counts. Every count is an outcome
/// of a draw over exactly that range, so no count outside it, and no
/// narrower draw, can stand behind the plan.
pub fn background_cloud_random_plan() -> (plan: Vec<CloudSlot>)
    ensures
        exists|counts: Seq<usize>|
            {
                &&& counts.len() == BACKGROUND_CLOUD_ROWS * BACKGROUND_CLOUD_COLUMNS
                &&& forall|i: int| 0 <= i < counts.len() ==> #[trigger] drawn_cloud_count(counts[i])
                &&& forall|i: int|
                    0 <= i < counts.len() ==> BACKGROUND_CLOUDS_PER_SLOT_MIN <= #[trigger] counts[i]
                        <= BACKGROUND_CLOUDS_PER_SLOT_MAX
                &&& plan@ == spec_cloud_plan(counts)
            },
{
    let draw = random_usize_inclusive;
    let mut counts: Vec<usize> = Vec::new();
    let mut cell: usize = 0;
    while cell < BACKGROUND_CLOUD_ROWS * BACKGROUND_CLOUD_COLUMNS
        invariant
            cell <= BACKGROUND_CLOUD_ROWS * BACKGROUND_CLOUD_COLUMNS,
            counts@.len() == cell,
            draw == random_usize_inclusive,
            forall|i: int| 0 <= i < cell ==> #[trigger] drawn_cloud_count(counts@[i]),
            forall|i: int|
                0 <= i < cell ==> BACKGROUND_CLOUDS_PER_SLOT_MIN <= #[trigger] counts@[i]
                    <= BACKGROUND_CLOUDS_PER_SLOT_MAX,
        decreases BACKGROUND_CLOUD_ROWS * BACKGROUND_CLOUD_COLUMNS - cell,
    {
        let count = draw(BACKGROUND_CLOUDS_PER_SLOT_MIN, BACKGROUND_CLOUDS_PER_SLOT_MAX);
        counts.push(count);
        cell = cell + 1;
    }
    background_cloud_plan(counts.as_slice())
}

/// The lane (from 0) of enemy number `enemy_number` (from 1); numbers past
/// the last lane share the last lane.
pub open spec fn spec_enemy_slot_index(enemy_number: usize) -> usize {
    let index: int = if enemy_number >= 1 {
        enemy_number - 1
    } else {
        0
    };
    if index < ENEMY_COUNT - 1 {
        index as usize
    } else {
        (ENEMY_COUNT - 1) as usize
    }
}

/// The lane of the play area that enemy number `enemy_number` starts in.
pub fn enemy_slot_index(enemy_number: usize) -> (index: usize)
    ensures
        index == spec_enemy_slot_index(enemy_number),
        index < ENEMY_COUNT,
{
    let index = enemy_number.saturating_sub(1);
    if index < ENEMY_COUNT - 1 {
        index
    } else {
        ENEMY_COUNT - 1
    }
}

/// The numbers of the enemies to spawn: none while any enemy is still
/// around, else `1..=ENEMY_COUNT`, each in a lane of its own.
pub fn enemy_numbers_to_spawn(has_enemy: bool) -> (numbers: Vec<usize>)
    ensures
        has_enemy ==> numbers@.len() == 0,
        !has_enemy ==> numbers@.len() == ENEMY_COUNT && forall|i: int|
            0 <= i < ENEMY_COUNT ==> #[trigger] numbers@[i] == i + 1 && spec_enemy_slot_index(
                numbers@[i],
            ) == i,
{
    let mut numbers: Vec<usize> = Vec::new();
    if has_enemy {
        return numbers;
    }
    let mut enemy_number: usize = 1;
    while enemy_number <= ENEMY_COUNT
        invariant
            1 <= enemy_number <= ENEMY_COUNT + 1,
            numbers@.len() == enemy_number - 1,
            forall|i: int| 0 <= i < numbers@.len() ==> #[trigger] numbers@[i] == i + 1,
        decreases ENEMY_COUNT + 1 - enemy_number,
    {
        numbers.push(enemy_number);
        enemy_number = enemy_number + 1;
    }
    numbers
}

} // verus!
