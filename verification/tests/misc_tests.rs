use skyplane::camera::{primary_world_camera, CameraInfo};
use skyplane::collisions::{
    bullet_terrain_collision, health_collision_hit, is_terrain_name, ColliderRole, HealthHit,
};
use skyplane::hierarchy::{collect_descendants, entity_and_descendants, EntityTree};
use skyplane::particles::{particle_entity_name, particle_needs_smoke_trail, ParticleType, ParticlesAdvancedType};
use skyplane::propeller::propeller_is_animated_name;

#[test]
fn propeller_name_detection_matches_active_and_named_plane_nodes() {
    assert!(propeller_is_animated_name("Cylinder.001"));
    assert!(propeller_is_animated_name("Cube.010_Propeller_0"));
    assert!(propeller_is_animated_name("Propeller"));
    assert!(!propeller_is_animated_name("Player Model"));
}

#[test]
fn propeller_name_detection_is_exact_and_case_sensitive() {
    assert!(!propeller_is_animated_name("Cylinder.0011"));
    assert!(!propeller_is_animated_name("propeller"));
    assert!(!propeller_is_animated_name("Propelle"));
    assert!(propeller_is_animated_name("xxPropeller"));
    assert!(!propeller_is_animated_name(""));
}

fn camera(order: isize, is_active: bool) -> CameraInfo {
    CameraInfo { order, is_active }
}

#[test]
fn world_camera_prefers_last_active_world_camera() {
    assert_eq!(primary_world_camera(&[]), None);
    assert_eq!(primary_world_camera(&[camera(1, true), camera(100, true)]), None);
    assert_eq!(primary_world_camera(&[camera(0, false), camera(0, false)]), Some(1));
    assert_eq!(
        primary_world_camera(&[camera(0, true), camera(1, true), camera(0, false)]),
        Some(0)
    );
    assert_eq!(
        primary_world_camera(&[camera(0, true), camera(0, true), camera(0, false)]),
        Some(1)
    );
}

#[test]
fn descendants_come_in_depth_first_order() {
    let tree = EntityTree::from_children(vec![vec![1, 4], vec![2, 3], vec![], vec![], vec![5], vec![]])
        .expect("children come after parents");
    let mut found = vec![99];
    collect_descendants(&tree, 0, &mut found);
    assert_eq!(found, vec![99, 1, 2, 3, 4, 5]);
    assert_eq!(entity_and_descendants(&tree, 4), vec![4, 5]);
    assert_eq!(entity_and_descendants(&tree, 2), vec![2]);
    assert_eq!(entity_and_descendants(&tree, 17), vec![17]);
}

#[test]
fn entity_tree_rejects_children_before_parents() {
    assert!(EntityTree::from_children(vec![vec![1], vec![0]]).is_none());
    assert!(EntityTree::from_children(vec![vec![0]]).is_none());
    assert!(EntityTree::from_children(vec![vec![2]]).is_none());
    assert!(EntityTree::from_children(vec![]).is_some());
}

fn role() -> ColliderRole {
    ColliderRole {
        is_terrain: false,
        is_bullet: false,
        is_player_bullet: false,
        is_enemy_bullet: false,
        is_damageable_enemy: false,
        is_damageable_player: false,
    }
}

#[test]
fn terrain_name_is_matched_exactly() {
    assert!(is_terrain_name("TerrainGridBundle"));
    assert!(!is_terrain_name("TerrainGridBundle "));
    assert!(!is_terrain_name("Terrain"));
}

#[test]
fn bullets_touching_terrain_go_away() {
    let terrain = ColliderRole { is_terrain: true, ..role() };
    let bullet = ColliderRole { is_bullet: true, is_player_bullet: true, ..role() };
    assert_eq!(bullet_terrain_collision(terrain, bullet), (false, true));
    assert_eq!(bullet_terrain_collision(bullet, terrain), (true, false));
    assert_eq!(bullet_terrain_collision(bullet, bullet), (false, false));
}

#[test]
fn bullets_damage_only_the_other_side() {
    let player_bullet = ColliderRole { is_bullet: true, is_player_bullet: true, ..role() };
    let enemy_bullet = ColliderRole { is_bullet: true, is_enemy_bullet: true, ..role() };
    let enemy = ColliderRole { is_damageable_enemy: true, ..role() };
    let player = ColliderRole { is_damageable_player: true, ..role() };
    assert_eq!(health_collision_hit(player_bullet, enemy), HealthHit::PlayerBulletHitsEnemy);
    assert_eq!(health_collision_hit(player_bullet, player), HealthHit::NoHit);
    assert_eq!(health_collision_hit(enemy_bullet, player), HealthHit::EnemyBulletHitsPlayer);
    assert_eq!(health_collision_hit(enemy_bullet, enemy), HealthHit::NoHit);
    assert_eq!(health_collision_hit(enemy, player), HealthHit::NoHit);
}

#[test]
fn smoke_trail_emitters_are_named_after_their_plane() {
    assert_eq!(ParticleType::SmokeTrail.display_name(), "SmokeTrail");
    assert_eq!(ParticlesAdvancedType::SmokeTrail.display_name(), "SmokeTrail");
    assert_eq!(particle_entity_name(Some("Enemy 2"), ParticleType::SmokeTrail), "Enemy 2 SmokeTrail");
    assert_eq!(particle_entity_name(None, ParticleType::SmokeTrail), "Entity SmokeTrail");
    assert!(particle_needs_smoke_trail(None));
    assert!(!particle_needs_smoke_trail(Some(ParticleType::SmokeTrail)));
}
