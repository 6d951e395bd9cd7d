//! The shipyard `World` that hands out the runtime ids of a scene's entities.

use shipyard::World;
use vstd::prelude::*;

verus! {

#[verifier::external_type_specification]
#[verifier::external_body]
pub struct ExWorld(World);

/// The inner ids (`EntityId::inner`) of the entities alive in a shipyard world.
pub uninterp spec fn world_alive_entities(world: World) -> Set<u64>;

/// The number of entity slots a shipyard world has handed out so far
/// (the length of its `Entities` table; slots of deleted entities are reused).
pub uninterp spec fn world_entity_slots(world: World) -> nat;

/// Shipyard's 48-bit index mask: `EntityId::new` asserts that the index of a
/// fresh slot is below it.
pub open spec fn world_slot_limit() -> nat {
    0xffff_ffff_ffffnat
}

/// Calls `shipyard::World::new`. A new world has no entity and no slot.
#[verifier::external_body]
pub(crate) fn world_new() -> (world: World)
    ensures
        world_alive_entities(world) == Set::<u64>::empty(),
        world_entity_slots(world) == 0,
{
    World::new()
}

/// Calls `shipyard::World::add_entity` with no component and returns the new
/// entity's `EntityId::inner`. Shipyard hands out an id that no living entity
/// has; its inner value is a `NonZeroU64`, so never 0. A fresh slot is taken
/// only when no deleted slot is free, which panics once the index reaches the
/// 48-bit mask; hence the `requires`.
#[verifier::external_body]
pub(crate) fn world_add_entity(world: &mut World) -> (id: u64)
    requires
        world_entity_slots(*old(world)) < world_slot_limit(),
    ensures
        id != 0,
        !world_alive_entities(*old(world)).contains(id),
        world_alive_entities(*final(world)) == world_alive_entities(*old(world)).insert(id),
        world_entity_slots(*final(world)) <= world_entity_slots(*old(world)) + 1,
{
    world.add_entity(()).inner()
}

} // verus!
