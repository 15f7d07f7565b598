//! Which enemies get an on-screen targeting reticle: existing reticles are
//! kept while their enemy stays a valid target, within the limit of active
//! targets, and new reticles go to valid enemies that have none yet.

use vstd::prelude::*;

verus! {

/// How many enemies can carry an active reticle at once.
pub const UI_RETICLES_MAX_TARGETS: usize = 1;

/// What the game knows this frame about one live enemy, as seen from the
/// player: whether it is within reticle range, inside the angle of attack,
/// and whether its outline projects to a screen rectangle.
#[derive(Clone, Copy, Debug, PartialEq, Eq, Structural)]
pub struct EnemySighting {
    pub entity: u64,
    pub in_range: bool,
    pub in_angle: bool,
    pub has_screen_rect: bool,
}

/// What happens to an existing reticle this frame.
#[derive(Clone, Copy, Debug, PartialEq, Eq, Structural)]
pub enum ReticleAction {
    /// The reticle goes away.
    Despawn,
    /// The reticle stays but is hidden: its enemy is a valid target that
    /// does not project to the screen.
    Hide,
    /// The reticle follows its enemy's screen rectangle and blinks.
    Track,
}

/// The frame's reticle decisions: one action per existing reticle, in
/// order, and the enemies that get a new reticle, in order.
pub struct ReticlesPlan {
    pub actions: Vec<ReticleAction>,
    pub spawn: Vec<u64>,
}

/// The first sighting of `entity` among `enemies`, if it is a live enemy.
pub open spec fn sighting_of(enemies: Seq<EnemySighting>, entity: u64) -> Option<EnemySighting>
    decreases enemies.len(),
{
    if enemies.len() == 0 {
        None
    } else if enemies[0].entity == entity {
        Some(enemies[0])
    } else {
        sighting_of(enemies.drop_first(), entity)
    }
}

/// Whether a sighting makes a valid target: in range and in the angle.
pub open spec fn is_valid_target(sighting: EnemySighting) -> bool {
    sighting.in_range && sighting.in_angle
}

/// Actions for the reticles `targets` (by their enemies), and the targets
/// that end up active, when at most `max` may be active.
pub open spec fn reticle_pass(enemies: Seq<EnemySighting>, targets: Seq<u64>, max: int) -> (
    Seq<ReticleAction>,
    Seq<u64>,
)
    decreases targets.len(),
{
    if targets.len() == 0 {
        (Seq::empty(), Seq::empty())
    } else {
        let (actions, active) = reticle_pass(enemies, targets.drop_last(), max);
        let target = targets.last();
        match sighting_of(enemies, target) {
            Some(sighting) => if !is_valid_target(sighting) || active.len() >= max {
                (actions.push(ReticleAction::Despawn), active)
            } else if !sighting.has_screen_rect {
                (actions.push(ReticleAction::Hide), active)
            } else {
                (actions.push(ReticleAction::Track), active.push(target))
            },
            None => (actions.push(ReticleAction::Despawn), active),
        }
    }
}

/// The enemies that get new reticles, in order, going through `enemies`
/// with the targets `active` already taken, and the targets active after.
pub open spec fn spawn_pass(enemies: Seq<EnemySighting>, active: Seq<u64>, max: int) -> (
    Seq<u64>,
    Seq<u64>,
)
    decreases enemies.len(),
{
    if enemies.len() == 0 {
        (Seq::empty(), active)
    } else {
        let (spawned, taken) = spawn_pass(enemies.drop_last(), active, max);
        let enemy = enemies.last();
        if taken.len() < max && is_valid_target(enemy) && !taken.contains(enemy.entity)
            && enemy.has_screen_rect {
            (spawned.push(enemy.entity), taken.push(enemy.entity))
        } else {
            (spawned, taken)
        }
    }
}

/// The frame's plan: without a player or a world camera every reticle
/// goes; otherwise the reticle pass, then the spawn pass.
pub open spec fn spec_reticles_plan(
    has_player_and_camera: bool,
    targets: Seq<u64>,
    enemies: Seq<EnemySighting>,
    max: int,
) -> (Seq<ReticleAction>, Seq<u64>) {
    if !has_player_and_camera {
        (Seq::new(targets.len(), |i: int| ReticleAction::Despawn), Seq::empty())
    } else {
        let (actions, active) = reticle_pass(enemies, targets, max);
        (actions, spawn_pass(enemies, active, max).0)
    }
}

/// Whether some valid, visible enemy of `enemies` is `entity`.
pub open spec fn is_visible_valid_enemy(enemies: Seq<EnemySighting>, entity: u64) -> bool {
    exists|k: int|
        0 <= k < enemies.len() && #[trigger] enemies[k].entity == entity && is_valid_target(enemies[k])
            && enemies[k].has_screen_rect
}

/// Whether `entity` is in `values`.
fn contains_entity(values: &Vec<u64>, entity: u64) -> (found: bool)
    ensures
        found == values@.contains(entity),
{
    let mut i: usize = 0;
    while i < values.len()
        invariant
            i <= values@.len(),
            forall|j: int| 0 <= j < i ==> values@[j] != entity,
        decreases values@.len() - i,
    {
        if values[i] == entity {
            assert(values@[i as int] == entity);
            return true;
        }
        i = i + 1;
    }
    false
}

/// The first sighting of `entity` among `enemies`.
fn find_sighting(enemies: &[EnemySighting], entity: u64) -> (found: Option<EnemySighting>)
    ensures
        found == sighting_of(enemies@, entity),
{
    let mut i: usize = 0;
    assert(enemies@.subrange(0, enemies@.len() as int) =~= enemies@);
    while i < enemies.len()
        invariant
            i <= enemies@.len(),
            sighting_of(enemies@, entity) == sighting_of(enemies@.subrange(i as int, enemies@.len() as int), entity),
        decreases enemies@.len() - i,
    {
        let ghost rest = enemies@.subrange(i as int, enemies@.len() as int);
        assert(rest.drop_first() =~= enemies@.subrange(i + 1, enemies@.len() as int));
        if enemies[i].entity == entity {
            return Some(enemies[i]);
        }
        i = i + 1;
    }
    None
}

/// Decides, for this frame, what happens to each existing reticle (listed
/// by the enemy it targets) and which enemies get a new one, with at most
/// `UI_RETICLES_MAX_TARGETS` active targets.
pub fn ui_reticles_plan(
    has_player_and_camera: bool,
    reticle_targets: &[u64],
    enemies: &[EnemySighting],
) -> (plan: ReticlesPlan)
    ensures
        (plan.actions@, plan.spawn@) == spec_reticles_plan(
            has_player_and_camera,
            reticle_targets@,
            enemies@,
            UI_RETICLES_MAX_TARGETS as int,
        ),
{
    let mut actions: Vec<ReticleAction> = Vec::new();
    if !has_player_and_camera {
        let mut i: usize = 0;
        while i < reticle_targets.len()
            invariant
                i <= reticle_targets@.len(),
                actions@ == Seq::new(i as nat, |j: int| ReticleAction::Despawn),
            decreases reticle_targets@.len() - i,
        {
            actions.push(ReticleAction::Despawn);
            i = i + 1;
            assert(actions@ =~= Seq::new(i as nat, |j: int| ReticleAction::Despawn));
        }
        return ReticlesPlan { actions, spawn: Vec::new() };
    }
    let max = UI_RETICLES_MAX_TARGETS;
    let mut active: Vec<u64> = Vec::new();
    let mut i: usize = 0;
    while i < reticle_targets.len()
        invariant
            i <= reticle_targets@.len(),
            max == UI_RETICLES_MAX_TARGETS,
            (actions@, active@) == reticle_pass(enemies@, reticle_targets@.subrange(0, i as int), max as int),
            active@.len() <= i,
        decreases reticle_targets@.len() - i,
    {
        let target = reticle_targets[i];
        assert(reticle_targets@.subrange(0, i + 1).drop_last() =~= reticle_targets@.subrange(0, i as int));
        match find_sighting(enemies, target) {
            Some(sighting) => {
                if !(sighting.in_range && sighting.in_angle) || active.len() >= max {
                    actions.push(ReticleAction::Despawn);
                } else if !sighting.has_screen_rect {
                    actions.push(ReticleAction::Hide);
                } else {
                    actions.push(ReticleAction::Track);
                    active.push(target);
                }
            },
            None => {
                actions.push(ReticleAction::Despawn);
            },
        }
        i = i + 1;
    }
    assert(reticle_targets@.subrange(0, i as int) =~= reticle_targets@);
    let ghost active_after_reticles = active@;
    let mut spawn: Vec<u64> = Vec::new();
    let mut e: usize = 0;
    while e < enemies.len()
        invariant
            e <= enemies@.len(),
            max == UI_RETICLES_MAX_TARGETS,
            active@.len() <= reticle_targets@.len() + e,
            (spawn@, active@) == spawn_pass(enemies@.subrange(0, e as int), active_after_reticles, max as int),
        decreases enemies@.len() - e,
    {
        let enemy = enemies[e];
        assert(enemies@.subrange(0, e + 1).drop_last() =~= enemies@.subrange(0, e as int));
        if active.len() < max && enemy.in_range && enemy.in_angle && !contains_entity(&active, enemy.entity)
            && enemy.has_screen_rect {
            spawn.push(enemy.entity);
            active.push(enemy.entity);
        }
        e = e + 1;
    }
    assert(enemies@.subrange(0, e as int) =~= enemies@);
    ReticlesPlan { actions, spawn }
}

/// The reticle pass keeps at most `max` targets active, each of them a
/// valid, visible enemy.
proof fn lemma_reticle_pass_bounds(enemies: Seq<EnemySighting>, targets: Seq<u64>, max: int)
    requires
        max >= 0,
    ensures
        reticle_pass(enemies, targets, max).0.len() == targets.len(),
        reticle_pass(enemies, targets, max).1.len() <= max,
        forall|x: u64|
            reticle_pass(enemies, targets, max).1.contains(x) ==> {
                &&& sighting_of(enemies, x) is Some
                &&& is_valid_target(sighting_of(enemies, x)->0)
                &&& sighting_of(enemies, x)->0.has_screen_rect
            },
    decreases targets.len(),
{
    if targets.len() > 0 {
        lemma_reticle_pass_bounds(enemies, targets.drop_last(), max);
        let (actions, active) = reticle_pass(enemies, targets.drop_last(), max);
        let t = targets.last();
        let result = reticle_pass(enemies, targets, max).1;
        assert forall|x: u64| result.contains(x) implies {
            &&& sighting_of(enemies, x) is Some
            &&& is_valid_target(sighting_of(enemies, x)->0)
            &&& sighting_of(enemies, x)->0.has_screen_rect
        } by {
            if result != active {
                assert(result == active.push(t));
                let k = choose|k: int| 0 <= k < result.len() && result[k] == x;
                if k < active.len() {
                    assert(active[k] == x);
                    assert(active.contains(x));
                }
            }
        }
    }
}

/// The spawn pass only adds targets: new ones are distinct, were not taken
/// before, are valid visible enemies, and never push the active count past
/// `max`.
proof fn lemma_spawn_pass_bounds(enemies: Seq<EnemySighting>, active: Seq<u64>, max: int)
    requires
        active.len() <= max,
    ensures
        spawn_pass(enemies, active, max).1 == active + spawn_pass(enemies, active, max).0,
        spawn_pass(enemies, active, max).1.len() <= max,
        forall|i: int, j: int|
            0 <= i < j < spawn_pass(enemies, active, max).0.len() ==> spawn_pass(enemies, active, max).0[i]
                != spawn_pass(enemies, active, max).0[j],
        forall|i: int|
            0 <= i < spawn_pass(enemies, active, max).0.len() ==> !active.contains(
                #[trigger] spawn_pass(enemies, active, max).0[i],
            ),
        forall|i: int|
            0 <= i < spawn_pass(enemies, active, max).0.len() ==> is_visible_valid_enemy(
                enemies,
                #[trigger] spawn_pass(enemies, active, max).0[i],
            ),
    decreases enemies.len(),
{
    if enemies.len() == 0 {
        assert(active + Seq::<u64>::empty() =~= active);
    } else {
        let prefix = enemies.drop_last();
        lemma_spawn_pass_bounds(prefix, active, max);
        let (spawned, taken) = spawn_pass(prefix, active, max);
        let enemy = enemies.last();
        assert forall|i: int| 0 <= i < spawned.len() implies is_visible_valid_enemy(
            enemies,
            #[trigger] spawned[i],
        ) by {
            assert(is_visible_valid_enemy(prefix, spawned[i]));
            let k = choose|k: int|
                0 <= k < prefix.len() && #[trigger] prefix[k].entity == spawned[i] && is_valid_target(
                    prefix[k],
                ) && prefix[k].has_screen_rect;
            assert(enemies[k] == prefix[k]);
        }
        if taken.len() < max && is_valid_target(enemy) && !taken.contains(enemy.entity)
            && enemy.has_screen_rect {
            let s2 = spawned.push(enemy.entity);
            assert(active + s2 =~= taken.push(enemy.entity));
            assert forall|i: int| 0 <= i < spawned.len() implies spawned[i] != enemy.entity by {
                assert(taken[active.len() + i] == spawned[i]);
            }
            assert forall|i: int| 0 <= i < active.len() implies active[i] != enemy.entity by {
                assert(taken[i] == active[i]);
            }
            assert forall|i: int| 0 <= i < s2.len() implies !active.contains(#[trigger] s2[i]) by {
                if i == spawned.len() {
                    assert(s2[i] == enemy.entity);
                } else {
                    assert(s2[i] == spawned[i]);
                }
            }
            assert forall|i: int| 0 <= i < s2.len() implies is_visible_valid_enemy(
                enemies,
                #[trigger] s2[i],
            ) by {
                if i == spawned.len() {
                    assert(enemies[enemies.len() - 1].entity == s2[i]);
                } else {
                    assert(s2[i] == spawned[i]);
                    assert(is_visible_valid_enemy(enemies, spawned[i]));
                }
            }
        }
    }
}

/// Laws of a frame's plan: one action per existing reticle; without player
/// or camera all of them go and none is added; otherwise the kept and the
/// new targets together number at most `max`, new reticles go to distinct
/// valid visible enemies that had no kept reticle, and every kept reticle
/// follows a valid visible enemy.
pub proof fn lemma_reticles_plan_laws(
    has_player_and_camera: bool,
    targets: Seq<u64>,
    enemies: Seq<EnemySighting>,
    max: int,
)
    requires
        max >= 0,
    ensures
        ({
            let (actions, spawn) = spec_reticles_plan(has_player_and_camera, targets, enemies, max);
            let kept = reticle_pass(enemies, targets, max).1;
            &&& actions.len() == targets.len()
            &&& !has_player_and_camera ==> spawn.len() == 0 && forall|i: int|
                0 <= i < actions.len() ==> actions[i] == ReticleAction::Despawn
            &&& has_player_and_camera ==> {
                &&& kept.len() + spawn.len() <= max
                &&& forall|i: int, j: int| 0 <= i < j < spawn.len() ==> spawn[i] != spawn[j]
                &&& forall|i: int| 0 <= i < spawn.len() ==> !kept.contains(#[trigger] spawn[i])
                &&& forall|i: int|
                    0 <= i < spawn.len() ==> is_visible_valid_enemy(enemies, #[trigger] spawn[i])
                &&& forall|x: u64|
                    kept.contains(x) ==> sighting_of(enemies, x) is Some && is_valid_target(
                        sighting_of(enemies, x)->0,
                    ) && sighting_of(enemies, x)->0.has_screen_rect
            }
        }),
{
    lemma_reticle_pass_bounds(enemies, targets, max);
    let kept = reticle_pass(enemies, targets, max).1;
    lemma_spawn_pass_bounds(enemies, kept, max);
}

} // verus!
