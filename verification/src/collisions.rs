//! What a collision between two bodies means for the game: bullets that
//! hit the terrain are removed, and bullets that hit a plane of the other
//! side damage it.

use vstd::prelude::*;

use crate::text::{chars_equal, chars_of};

verus! {

/// What a collision needs to know of one of its two bodies.
#[derive(Clone, Copy, Debug, PartialEq, Eq, Structural)]
pub struct ColliderRole {
    /// The body is the terrain.
    pub is_terrain: bool,
    /// The body is a bullet of either side.
    pub is_bullet: bool,
    /// The body is a bullet fired by the player.
    pub is_player_bullet: bool,
    /// The body is a bullet fired by an enemy.
    pub is_enemy_bullet: bool,
    /// The body is an enemy with health that is not already dying.
    pub is_damageable_enemy: bool,
    /// The body is the player with health and not already dying.
    pub is_damageable_player: bool,
}

/// What a bullet does to the body it touched.
#[derive(Clone, Copy, Debug, PartialEq, Eq, Structural)]
pub enum HealthHit {
    /// Nothing happens.
    NoHit,
    /// A player bullet damages an enemy (and a hit sound plays if it dies).
    PlayerBulletHitsEnemy,
    /// An enemy bullet damages the player.
    EnemyBulletHitsPlayer,
}

/// The name of the terrain body.
pub open spec fn terrain_name() -> Seq<char> {
    "TerrainGridBundle"@
}

/// Whether a body with this name is the terrain.
pub fn is_terrain_name(name: &str) -> (terrain: bool)
    ensures
        terrain == (name@ == terrain_name()),
{
    let name_chars = chars_of(name);
    let terrain = chars_of("TerrainGridBundle");
    chars_equal(name_chars.as_slice(), terrain.as_slice())
}

/// Which of the two bodies of a collision are bullets that touched the
/// terrain and go away (each with a sound): the second when the first is
/// terrain, the first when the second is terrain.
pub fn bullet_terrain_collision(first: ColliderRole, second: ColliderRole) -> (despawn: (bool, bool))
    ensures
        despawn.0 == (second.is_terrain && first.is_bullet),
        despawn.1 == (first.is_terrain && second.is_bullet),
{
    let despawn_second = first.is_terrain && second.is_bullet;
    let despawn_first = second.is_terrain && first.is_bullet;
    (despawn_first, despawn_second)
}

/// What `bullet` does to `target` when they touch: a player bullet can
/// only damage an enemy, an enemy bullet only the player; any other body
/// is left alone.
pub open spec fn spec_health_collision_hit(bullet: ColliderRole, target: ColliderRole) -> HealthHit {
    if bullet.is_player_bullet {
        if target.is_damageable_enemy {
            HealthHit::PlayerBulletHitsEnemy
        } else {
            HealthHit::NoHit
        }
    } else if bullet.is_enemy_bullet && target.is_damageable_player {
        HealthHit::EnemyBulletHitsPlayer
    } else {
        HealthHit::NoHit
    }
}

/// Decides what `bullet` does to `target` when they touch. A collision is
/// looked at both ways: first body as bullet, then second body as bullet.
pub fn health_collision_hit(bullet: ColliderRole, target: ColliderRole) -> (hit: HealthHit)
    ensures
        hit == spec_health_collision_hit(bullet, target),
{
    if bullet.is_player_bullet {
        if target.is_damageable_enemy {
            return HealthHit::PlayerBulletHitsEnemy;
        }
        return HealthHit::NoHit;
    }
    if bullet.is_enemy_bullet && target.is_damageable_player {
        return HealthHit::EnemyBulletHitsPlayer;
    }
    HealthHit::NoHit
}

/// No friendly fire: a bullet never damages a plane of its own side.
pub proof fn lemma_no_friendly_fire(bullet: ColliderRole, target: ColliderRole)
    ensures
        spec_health_collision_hit(bullet, target) == HealthHit::PlayerBulletHitsEnemy ==> bullet.is_player_bullet
            && target.is_damageable_enemy,
        spec_health_collision_hit(bullet, target) == HealthHit::EnemyBulletHitsPlayer ==> bullet.is_enemy_bullet
            && target.is_damageable_player,
        !bullet.is_player_bullet && !bullet.is_enemy_bullet ==> spec_health_collision_hit(bullet, target)
            == HealthHit::NoHit,
{
}

} // verus!
