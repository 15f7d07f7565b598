//! Smoke-trail emitters on planes: which planes still need one and what the
//! emitter entity is called.

use vstd::prelude::*;

use crate::text::{chars_of, string_from_chars};

verus! {

/// The reusable particle effects.
#[derive(Clone, Copy, Debug, PartialEq, Eq, Hash, Structural)]
pub enum ParticleType {
    SmokeTrail,
}

/// The particle effects of the advanced particle set.
#[derive(Clone, Copy, Debug, PartialEq, Eq, Hash, Structural)]
pub enum ParticlesAdvancedType {
    SmokeTrail,
}

/// The display name of the smoke trail.
pub open spec fn smoke_trail_name() -> Seq<char> {
    "SmokeTrail"@
}

impl ParticleType {
    /// The effect's name as shown in entity names.
    pub fn display_name(self) -> (name: &'static str)
        ensures
            name@ == smoke_trail_name(),
    {
        match self {
            ParticleType::SmokeTrail => "SmokeTrail",
        }
    }
}

impl ParticlesAdvancedType {
    /// The effect's name as shown in entity names.
    pub fn display_name(self) -> (name: &'static str)
        ensures
            name@ == smoke_trail_name(),
    {
        match self {
            ParticlesAdvancedType::SmokeTrail => "SmokeTrail",
        }
    }
}

/// Whether a plane still needs a smoke-trail emitter: it has none yet.
pub fn particle_needs_smoke_trail(existing: Option<ParticleType>) -> (needed: bool)
    ensures
        needed == !(existing matches Some(ParticleType::SmokeTrail)),
{
    match existing {
        Some(ParticleType::SmokeTrail) => false,
        None => true,
    }
}

/// The name of an emitter entity: the plane's name (or `Entity` for a plane
/// without one), a space, and the effect's name.
pub open spec fn spec_particle_entity_name(entity_name: Option<Seq<char>>, effect_name: Seq<char>) -> Seq<
    char,
> {
    match entity_name {
        Some(name) => name + seq![' '] + effect_name,
        None => "Entity"@ + seq![' '] + effect_name,
    }
}

/// Names the emitter that carries `particle_type` on a plane.
pub fn particle_entity_name(entity_name: Option<&str>, particle_type: ParticleType) -> (name: String)
    ensures
        name@ == spec_particle_entity_name(
            match entity_name {
                Some(n) => Some(n@),
                None => None,
            },
            smoke_trail_name(),
        ),
{
    let mut chars = match entity_name {
        Some(n) => chars_of(n),
        None => chars_of("Entity"),
    };
    chars.push(' ');
    let mut effect = chars_of(particle_type.display_name());
    let ghost head = chars@;
    chars.append(&mut effect);
    string_from_chars(&chars)
}

} // verus!
