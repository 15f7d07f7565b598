use skyplane::reticles::{ui_reticles_plan, EnemySighting, ReticleAction, UI_RETICLES_MAX_TARGETS};

fn sighting(entity: u64, in_range: bool, in_angle: bool, has_screen_rect: bool) -> EnemySighting {
    EnemySighting { entity, in_range, in_angle, has_screen_rect }
}

#[test]
fn ui_reticles_targets_one_enemy_for_now() {
    assert_eq!(UI_RETICLES_MAX_TARGETS, 1);
}

#[test]
fn reticles_go_away_without_player_or_camera() {
    let plan = ui_reticles_plan(false, &[3, 4], &[sighting(3, true, true, true)]);
    assert_eq!(plan.actions, vec![ReticleAction::Despawn, ReticleAction::Despawn]);
    assert!(plan.spawn.is_empty());
}

#[test]
fn valid_enemy_gets_one_reticle() {
    let enemies = [sighting(7, true, true, true), sighting(8, true, true, true)];
    let plan = ui_reticles_plan(true, &[], &enemies);
    assert!(plan.actions.is_empty());
    assert_eq!(plan.spawn, vec![7]);
}

#[test]
fn tracked_reticle_keeps_its_enemy_and_blocks_new_ones() {
    let enemies = [sighting(7, true, true, true), sighting(8, true, true, true)];
    let plan = ui_reticles_plan(true, &[8], &enemies);
    assert_eq!(plan.actions, vec![ReticleAction::Track]);
    assert!(plan.spawn.is_empty());
}

#[test]
fn reticles_of_invalid_targets_go_away() {
    let enemies = [
        sighting(1, false, true, true),
        sighting(2, true, false, true),
        sighting(3, true, true, true),
    ];
    let plan = ui_reticles_plan(true, &[9, 1, 2, 3, 3], &enemies);
    assert_eq!(
        plan.actions,
        vec![
            ReticleAction::Despawn,
            ReticleAction::Despawn,
            ReticleAction::Despawn,
            ReticleAction::Track,
            ReticleAction::Despawn,
        ]
    );
    assert!(plan.spawn.is_empty());
}

#[test]
fn offscreen_target_hides_its_reticle_and_gets_no_new_one() {
    let enemies = [sighting(5, true, true, false), sighting(6, true, true, true)];
    let plan = ui_reticles_plan(true, &[5], &enemies);
    assert_eq!(plan.actions, vec![ReticleAction::Hide]);
    assert_eq!(plan.spawn, vec![6]);
}
