//! The animation manager: the animations that exist.

use crate::animation::factory::AnimationRegistry;
use crate::animation::{Animation, AnimationTargetType};
use crate::id::AnimationId;
use crate::table::Table;
use vstd::prelude::*;

verus! {

/// Why an animation could not be created.
#[derive(Debug, Clone, Copy, PartialEq, Eq, Structural)]
pub enum AnimationManagerError {
    /// No shader is registered under the shader identifier.
    AnimationIsNotRegistered,
    /// An animation has the identifier already.
    AnimationExistsWithId,
}

/// Whoever wants to be handed the animations that exist.
pub trait RecvAnimationManagerState {
    fn recv(&self, state: Table<Animation>);
}

/// The animations that exist, by identifier, and the registry of the
/// shaders they are made of.
#[derive(Debug)]
pub struct AnimationManager {
    registry: AnimationRegistry,
    animations: Table<Animation>,
}

impl AnimationManager {
    /// The registry of shaders.
    pub closed spec fn registry(&self) -> AnimationRegistry {
        self.registry
    }

    /// The animations, by identifier.
    pub closed spec fn animations(&self) -> Table<Animation> {
        self.animations
    }

    /// The tables are well formed and every animation is kept under its own
    /// identifier.
    pub open spec fn wf(&self) -> bool {
        &&& self.registry().wf()
        &&& self.animations().wf()
        &&& forall|k: Seq<char>| #[trigger]
            self.animations().contains(k) ==> self.animations().value_of(k)@.id == k
    }

    /// A manager without animations, over the shaders of `registry`.
    pub fn new(registry: AnimationRegistry) -> (manager: AnimationManager)
        requires
            registry.wf(),
        ensures
            manager.wf(),
            manager.registry() == registry,
            manager.animations().keys().len() == 0,
    {
        let manager = AnimationManager { registry, animations: Table::new() };
        proof {
            assert forall|k: Seq<char>| !manager.animations().contains(k) by {
                if manager.animations().contains(k) {
                    manager.animations().lemma_contains(k);
                }
            }
        }
        manager
    }

    /// Creates the animation `id` that runs the shader `shader_id` on
    /// `target`. Fails, changing nothing, where no such shader is
    /// registered, or where an animation has the identifier already.
    pub fn create_animation(
        &mut self,
        id: AnimationId,
        shader_id: String,
        target: AnimationTargetType,
    ) -> (result: Result<AnimationId, AnimationManagerError>)
        requires
            old(self).wf(),
        ensures
            final(self).wf(),
            final(self).registry() == old(self).registry(),
            !old(self).registry().manifests().contains(shader_id@) ==> result == Err::<
                AnimationId,
                AnimationManagerError,
            >(AnimationManagerError::AnimationIsNotRegistered) && final(self).animations() == old(self).animations(),
            old(self).registry().manifests().contains(shader_id@) && old(self).animations().contains(id@) ==> result == Err::<AnimationId, AnimationManagerError>(
                AnimationManagerError::AnimationExistsWithId,
            ) && final(self).animations() == old(self).animations(),
            old(self).registry().manifests().contains(shader_id@) && !old(self).animations().contains(id@) ==> (result matches Ok(made) && made@ == id@) && old(self).animations().stored(&final(self).animations(), id@) && {
                let animation = final(self).animations().value_of(id@)@;
                let manifest = old(self).registry().manifests().value_of(shader_id@)@;
                animation.id == id@ && animation.target == target@ && animation.shader
                    == manifest.shader && animation.auxiliaries == manifest.auxiliaries
            },
    {
        let manifest = match self.registry.get(&shader_id) {
            None => {
                return Err(AnimationManagerError::AnimationIsNotRegistered);
            },
            Some(manifest) => manifest,
        };
        if self.animations.contains_key(id.key()) {
            return Err(AnimationManagerError::AnimationExistsWithId);
        }
        let animation = Animation::new(id.clone(), manifest, target);
        self.animations.insert(id.unprotect(), animation);
        Ok(id)
    }

    /// Destroys the animation `id`; nothing changes where there is none.
    pub fn destroy_animation(&mut self, id: &AnimationId)
        requires
            old(self).wf(),
        ensures
            final(self).wf(),
            final(self).registry() == old(self).registry(),
            old(self).animations().dropped(&final(self).animations(), id@),
    {
        let _gone = self.animations.remove(id.key());
    }

    /// The animation `id`, if it exists.
    pub fn get_animation(&self, id: &AnimationId) -> (animation: Option<Animation>)
        requires
            self.wf(),
        ensures
            animation is Some <==> self.animations().contains(id@),
            animation is Some ==> animation->0@ == self.animations().value_of(id@)@,
    {
        match self.animations.get(id.key()) {
            Some(animation) => Some(animation.clone()),
            None => None,
        }
    }

    /// The animations that exist, borrowed.
    pub fn animation_table(&self) -> (table: &Table<Animation>)
        ensures
            *table == self.animations(),
    {
        &self.animations
    }

    /// A copy of the animations that exist.
    pub fn get_animation_states(&self) -> (states: Table<Animation>)
        requires
            self.wf(),
        ensures
            states.wf(),
            states.keys() == self.animations().keys(),
            forall|i: int|
                0 <= i < states.keys().len() ==> (#[trigger] states.values()[i])@
                    == self.animations().values()[i]@,
    {
        copy_animations(&self.animations)
    }
}

/// A copy of a table of animations.
pub fn copy_animations(table: &Table<Animation>) -> (twin: Table<Animation>)
    requires
        table.wf(),
    ensures
        twin.wf(),
        twin.keys() == table.keys(),
        forall|i: int| 0 <= i < table.keys().len() ==> (#[trigger] twin.values()[i])@ == table.values()[i]@,
{
    let mut twin: Table<Animation> = Table::new();
    let n = table.len();
    let mut i: usize = 0;
    while i < n
        invariant
            table.wf(),
            twin.wf(),
            n == table.keys().len(),
            i <= n,
            twin.keys() == table.keys().subrange(0, i as int),
            forall|j: int| 0 <= j < i ==> (#[trigger] twin.values()[j])@ == table.values()[j]@,
        decreases n - i,
    {
        let key = table.key_at(i);
        proof {
            if twin.contains(key@) {
                twin.lemma_contains(key@);
                assert(table.keys()[twin.index_of(key@)] == table.keys()[i as int]);
            }
            assert(table.keys().subrange(0, i + 1) =~= table.keys().subrange(0, i as int).push(
                key@,
            ));
        }
        twin.insert(key.clone(), table.value_at(i).clone());
        i += 1;
    }
    assert(table.keys().subrange(0, n as int) =~= table.keys());
    twin
}

} // verus!
