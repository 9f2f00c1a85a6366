//! The animation registry: shader manifests by shader id.

use crate::animation::copy_shapes;
use crate::auxiliary_data::AuxiliaryDataTypeConsumer;
use crate::table::Table;
use vstd::prelude::*;

verus! {

/// A shader's source text and the shapes of the auxiliary slots it declares,
/// in slot order.
#[derive(Debug)]
pub struct AnimationManifest {
    pub shader: String,
    pub auxiliaries: Option<Vec<AuxiliaryDataTypeConsumer>>,
}

/// A manifest, apart from how it is stored.
#[verifier::ext_equal]
pub struct ManifestView {
    pub shader: Seq<char>,
    pub auxiliaries: Option<Seq<AuxiliaryDataTypeConsumer>>,
}

impl View for AnimationManifest {
    type V = ManifestView;

    open spec fn view(&self) -> ManifestView {
        ManifestView {
            shader: self.shader@,
            auxiliaries: match self.auxiliaries {
                Some(list) => Some(list@),
                None => None,
            },
        }
    }
}

impl Clone for AnimationManifest {
    fn clone(&self) -> (copy: Self)
        ensures
            copy@ == self@,
    {
        AnimationManifest {
            shader: self.shader.clone(),
            auxiliaries: match &self.auxiliaries {
                Some(list) => Some(copy_shapes(list)),
                None => None,
            },
        }
    }
}

impl AnimationManifest {
    /// The manifest of the given source text and slots.
    pub fn new(shader: String, auxiliaries: Option<Vec<AuxiliaryDataTypeConsumer>>) -> (made:
        AnimationManifest)
        ensures
            made.shader == shader,
            made.auxiliaries == auxiliaries,
    {
        AnimationManifest { shader, auxiliaries }
    }
}

/// A shader manifest as it is found beside the shader: the shader's
/// identifier, the path of its source relative to the manifest, and the
/// shapes of its auxiliary slots.
#[derive(Debug)]
pub struct ShaderManifest {
    pub id: String,
    pub shader: String,
    pub auxiliaries: Option<Vec<AuxiliaryDataTypeConsumer>>,
}

/// Why a shader could not be registered.
#[derive(Debug, Clone, Copy, PartialEq, Eq, Structural)]
pub enum AnimationRegistryRegisterError {
    AnimationExistsWithId,
}

/// The shaders that animations can be made of, by shader identifier.
/// Nothing registered is ever replaced or removed.
#[derive(Debug)]
pub struct AnimationRegistry {
    animations: Table<AnimationManifest>,
}

impl AnimationRegistry {
    /// The manifests, by shader identifier.
    pub closed spec fn manifests(&self) -> Table<AnimationManifest> {
        self.animations
    }

    /// The table is well formed.
    pub open spec fn wf(&self) -> bool {
        self.manifests().wf()
    }

    /// A registry without shaders.
    pub fn new() -> (registry: AnimationRegistry)
        ensures
            registry.wf(),
            registry.manifests().keys().len() == 0,
    {
        AnimationRegistry { animations: Table::new() }
    }

    /// Registers the shader `id`; fails, changing nothing, where a shader
    /// has that identifier already.
    pub fn register(
        &mut self,
        id: String,
        shader: String,
        auxiliaries: Option<Vec<AuxiliaryDataTypeConsumer>>,
    ) -> (result: Result<(), AnimationRegistryRegisterError>)
        requires
            old(self).wf(),
        ensures
            final(self).wf(),
            old(self).manifests().contains(id@) ==> result == Err::<
                (),
                AnimationRegistryRegisterError,
            >(AnimationRegistryRegisterError::AnimationExistsWithId) && final(self).manifests()
                == old(self).manifests(),
            !old(self).manifests().contains(id@) ==> result is Ok && old(self).manifests().stored(
                &final(self).manifests(),
                id@,
            ) && final(self).manifests().value_of(id@).shader == shader && final(self).manifests().value_of(id@).auxiliaries == auxiliaries,
    {
        if self.animations.contains_key(&id) {
            return Err(AnimationRegistryRegisterError::AnimationExistsWithId);
        }
        let manifest = AnimationManifest::new(shader, auxiliaries);
        self.animations.insert(id, manifest);
        Ok(())
    }

    /// The manifest of the shader `id`, if it is registered.
    pub fn get(&self, id: &String) -> (manifest: Option<AnimationManifest>)
        requires
            self.wf(),
        ensures
            manifest is Some <==> self.manifests().contains(id@),
            manifest is Some ==> manifest->0@ == self.manifests().value_of(id@)@,
    {
        match self.animations.get(id) {
            Some(manifest) => Some(manifest.clone()),
            None => None,
        }
    }
}

/// A shader found on disk: its manifest and its source text.
#[derive(Debug)]
pub struct LoadedShader {
    pub manifest: ShaderManifest,
    pub source: String,
}

/// The manifest that a shader found on disk is registered with: its source
/// text and the shapes of its auxiliary slots.
pub open spec fn loaded_manifest(shader: LoadedShader) -> ManifestView {
    ManifestView {
        shader: shader.source@,
        auxiliaries: match shader.manifest.auxiliaries {
            Some(list) => Some(list@),
            None => None,
        },
    }
}

/// The identifier of each shader of a list.
pub open spec fn shader_ids(shaders: Seq<LoadedShader>) -> Seq<Seq<char>> {
    shaders.map_values(|s: LoadedShader| s.manifest.id@)
}

/// The registry of the shaders found, registered in the order found. Of
/// shaders with the same identifier the first is kept.
pub fn get_animation_registry(shaders: Vec<LoadedShader>) -> (registry: AnimationRegistry)
    ensures
        registry.wf(),
        forall|k: Seq<char>| #[trigger]
            registry.manifests().contains(k) <==> shader_ids(shaders@).contains(k),
        forall|i: int|
            0 <= i < shaders@.len() && (forall|j: int|
                0 <= j < i ==> shaders@[j].manifest.id@ != shaders@[i].manifest.id@)
                ==> registry.manifests().value_of(#[trigger] shaders@[i].manifest.id@)@
                == loaded_manifest(shaders@[i]),
{
    let mut registry = AnimationRegistry::new();
    let mut shaders = shaders;
    let ghost all = shaders@;
    let n = shaders.len();
    let mut i: usize = 0;
    proof {
        assert forall|k: Seq<char>| !registry.manifests().contains(k) by {
            if registry.manifests().contains(k) {
                registry.manifests().lemma_contains(k);
            }
        }
    }
    while i < n
        invariant
            registry.wf(),
            n == all.len(),
            i <= n,
            shaders@.len() == n,
            forall|j: int| i <= j < n ==> shaders@[j] == all[j],
            forall|k: Seq<char>| #[trigger]
                registry.manifests().contains(k) <==> shader_ids(all).subrange(
                    0,
                    i as int,
                ).contains(k),
            forall|a: int|
                0 <= a < i && (forall|j: int|
                    0 <= j < a ==> all[j].manifest.id@ != all[a].manifest.id@)
                    ==> registry.manifests().value_of(#[trigger] all[a].manifest.id@)@
                    == loaded_manifest(all[a]),
        decreases n - i,
    {
        let ghost before = registry.manifests();
        let id = shaders[i].manifest.id.clone();
        let source = shaders[i].source.clone();
        let auxiliaries = match &shaders[i].manifest.auxiliaries {
            Some(list) => Some(copy_shapes(list)),
            None => None,
        };
        let ghost given = loaded_manifest(all[i as int]);
        assert(source@ == given.shader);
        assert(match auxiliaries {
            Some(list) => given.auxiliaries == Some(list@),
            None => given.auxiliaries is None,
        });
        let _outcome = registry.register(id, source, auxiliaries);
        proof {
            let key = all[i as int].manifest.id@;
            let after = registry.manifests();
            let done = shader_ids(all).subrange(0, i as int);
            assert(shader_ids(all)[i as int] == key);
            assert forall|k: Seq<char>| #[trigger]
                after.contains(k) <==> shader_ids(all).subrange(0, i + 1).contains(k) by {
                crate::table::lemma_prefix_contains(shader_ids(all), i as int, k);
            }
            if !before.contains(key) {
                assert(after.value_of(key)@ =~= given);
            }
            assert forall|a: int|
                0 <= a < i + 1 && (forall|j: int|
                    0 <= j < a ==> all[j].manifest.id@
                        != all[a].manifest.id@) implies after.value_of(
                #[trigger] all[a].manifest.id@,
            )@ == loaded_manifest(all[a]) by {
                let id_a = all[a].manifest.id@;
                if a < i {
                    assert(done[a] == id_a);
                    assert(before.contains(id_a));
                    assert(before.value_of(id_a)@ == loaded_manifest(all[a]));
                    if before.contains(key) {
                        assert(after == before);
                    } else {
                        assert(id_a != key);
                        assert(after.value_of(id_a) == before.value_of(id_a));
                    }
                } else {
                    assert(!before.contains(key)) by {
                        if before.contains(key) {
                            let at = choose|at: int| 0 <= at < done.len() && done[at] == key;
                            assert(all[at].manifest.id@ != all[a].manifest.id@);
                        }
                    }
                }
            }
        }
        i += 1;
    }
    assert(shader_ids(all).subrange(0, n as int) =~= shader_ids(all));
    registry
}

} // verus!
