//! Animations: a shader bound to a target.

pub mod factory;
pub mod manager;

use crate::animation::factory::AnimationManifest;
use crate::auxiliary_data::AuxiliaryDataTypeConsumer;
use crate::id::{AnimationId, FixtureId, GroupId, InstallationId};
use crate::world::context::WorldContext;
use crate::world::fixture::Fixture;
use crate::world::group::Group;
use crate::world::installation::Installation;
use crate::world::Coord;
use vstd::prelude::*;

verus! {

/// What an animation writes to: one fixture, one installation or one group.
#[derive(Debug, PartialEq, Eq, Hash)]
pub enum AnimationTargetType {
    Fixture(FixtureId),
    Installation(InstallationId),
    Group(GroupId),
}

/// A target, apart from how it is stored.
pub enum TargetView {
    Fixture(Seq<char>),
    Installation(Seq<char>),
    Group(Seq<char>),
}

impl TargetView {
    /// The text under which the world records the target's LEDs.
    pub open spec fn key(self) -> Seq<char> {
        match self {
            TargetView::Fixture(id) => id,
            TargetView::Installation(id) => id,
            TargetView::Group(id) => id,
        }
    }
}

impl View for AnimationTargetType {
    type V = TargetView;

    open spec fn view(&self) -> TargetView {
        match self {
            AnimationTargetType::Fixture(id) => TargetView::Fixture(id@),
            AnimationTargetType::Installation(id) => TargetView::Installation(id@),
            AnimationTargetType::Group(id) => TargetView::Group(id@),
        }
    }
}

impl Clone for AnimationTargetType {
    fn clone(&self) -> (copy: Self)
        ensures
            copy == *self,
    {
        match self {
            AnimationTargetType::Fixture(id) => AnimationTargetType::Fixture(id.clone()),
            AnimationTargetType::Installation(id) => AnimationTargetType::Installation(id.clone()),
            AnimationTargetType::Group(id) => AnimationTargetType::Group(id.clone()),
        }
    }
}

impl AnimationTargetType {
    /// The text under which the world records the target's LEDs: the text of
    /// the identifier it holds.
    pub fn target_id(&self) -> (text: String)
        ensures
            text@ == self@.key(),
    {
        match self {
            AnimationTargetType::Fixture(id) => id.unprotect(),
            AnimationTargetType::Installation(id) => id.unprotect(),
            AnimationTargetType::Group(id) => id.unprotect(),
        }
    }
}

/// What an animation can run on: something with LEDs at positions.
pub trait AnimationTarget {
    /// The number of LEDs of the target in the world `context`.
    fn num_leds(&self, context: &WorldContext) -> u32
        requires
            context.wf(),
    ;

    /// The position of every LED of the target in the world `context`.
    fn led_positions(&self, context: &WorldContext) -> Vec<Coord>
        requires
            context.wf(),
    ;
}

impl AnimationTarget for Fixture {
    fn num_leds(&self, _context: &WorldContext) -> (count: u32)
        ensures
            count == self.spec_led_count(),
    {
        self.led_count()
    }

    fn led_positions(&self, _context: &WorldContext) -> (positions: Vec<Coord>)
        ensures
            positions@ == self.positions(),
    {
        self.get_all_led_positions()
    }
}

impl AnimationTarget for Installation {
    fn num_leds(&self, context: &WorldContext) -> (count: u32)
        ensures
            count == crate::world::chunk::saturated(
                crate::world::chunk::chunk_total(self.chunks(context.fixtures())),
            ),
    {
        self.led_count(context)
    }

    fn led_positions(&self, context: &WorldContext) -> (positions: Vec<Coord>)
        ensures
            positions@ == crate::world::chunk::chunk_positions(
                self.chunks(context.fixtures()),
                context.fixtures(),
            ),
    {
        self.get_all_led_positions(context)
    }
}

impl AnimationTarget for Group {
    fn num_leds(&self, context: &WorldContext) -> (count: u32)
        ensures
            count == crate::world::chunk::saturated(
                crate::world::chunk::chunk_total(self.chunks_in(*context)),
            ),
    {
        self.led_count(context)
    }

    fn led_positions(&self, context: &WorldContext) -> (positions: Vec<Coord>)
        ensures
            positions@ == crate::world::chunk::chunk_positions(
                self.chunks_in(*context),
                context.fixtures(),
            ),
    {
        self.get_all_led_positions(context)
    }
}

/// Where shader manifests are looked for.
#[derive(Debug)]
pub struct ShadersConfig {
    pub shader_folders: Vec<String>,
}

impl Default for ShadersConfig {
    /// The single folder `shaders`.
    fn default() -> (config: Self)
        ensures
            config.shader_folders@.len() == 1,
            config.shader_folders@[0]@ == "shaders"@,
    {
        let mut shader_folders: Vec<String> = Vec::new();
        shader_folders.push("shaders".to_string());
        ShadersConfig { shader_folders }
    }
}

/// A shader program bound to a target. Identifier, manifest and target do
/// not change after construction.
#[derive(Debug)]
pub struct Animation {
    id: AnimationId,
    manifest: AnimationManifest,
    pub target: AnimationTargetType,
}

/// An animation, apart from how it is stored.
#[verifier::ext_equal]
pub struct AnimationView {
    pub id: Seq<char>,
    pub shader: Seq<char>,
    pub auxiliaries: Option<Seq<AuxiliaryDataTypeConsumer>>,
    pub target: TargetView,
}

impl AnimationView {
    /// The shapes of the auxiliary slots, none where the manifest declares
    /// no list.
    pub open spec fn auxiliary_types(self) -> Seq<AuxiliaryDataTypeConsumer> {
        match self.auxiliaries {
            Some(list) => list,
            None => Seq::empty(),
        }
    }
}

impl View for Animation {
    type V = AnimationView;

    closed spec fn view(&self) -> AnimationView {
        AnimationView {
            id: self.id@,
            shader: self.manifest.shader@,
            auxiliaries: match self.manifest.auxiliaries {
                Some(list) => Some(list@),
                None => None,
            },
            target: self.target@,
        }
    }
}

impl Animation {
    /// The animation `id` that runs `manifest` on `target`.
    pub fn new(id: AnimationId, manifest: AnimationManifest, target: AnimationTargetType) -> (made:
        Animation)
        ensures
            made@.id == id@,
            made@.shader == manifest.shader@,
            made@.auxiliaries == manifest@.auxiliaries,
            made@.target == target@,
    {
        Animation { id, manifest, target }
    }

    /// The animation's identifier.
    pub fn id(&self) -> (id: AnimationId)
        ensures
            id@ == self@.id,
    {
        self.id.clone()
    }

    /// The shader source text.
    pub fn get_shader_str(&self) -> (text: String)
        ensures
            text@ == self@.shader,
    {
        self.manifest.shader.clone()
    }

    /// The target.
    pub fn get_target_type(&self) -> (target: AnimationTargetType)
        ensures
            target@ == self@.target,
    {
        self.target.clone()
    }

    /// The declared shapes of the auxiliary slots, in slot order.
    pub fn get_auxiliaries(&self) -> (list: Option<Vec<AuxiliaryDataTypeConsumer>>)
        ensures
            list is Some <==> self@.auxiliaries is Some,
            list is Some ==> list->0@ == self@.auxiliaries->0,
    {
        match &self.manifest.auxiliaries {
            Some(list) => Some(copy_shapes(list)),
            None => None,
        }
    }

    /// The declared shapes of the auxiliary slots; none where the manifest
    /// declares no list.
    pub fn auxiliary_types(&self) -> (list: Vec<AuxiliaryDataTypeConsumer>)
        ensures
            list@ == self@.auxiliary_types(),
    {
        match &self.manifest.auxiliaries {
            Some(list) => copy_shapes(list),
            None => Vec::new(),
        }
    }
}

impl Clone for Animation {
    fn clone(&self) -> (copy: Self)
        ensures
            copy@ == self@,
    {
        Animation {
            id: self.id.clone(),
            manifest: self.manifest.clone(),
            target: self.target.clone(),
        }
    }
}

/// Copies a list of shapes.
pub fn copy_shapes(list: &Vec<AuxiliaryDataTypeConsumer>) -> (out: Vec<AuxiliaryDataTypeConsumer>)
    ensures
        out@ == list@,
{
    let mut out: Vec<AuxiliaryDataTypeConsumer> = Vec::new();
    let n = list.len();
    let mut i: usize = 0;
    while i < n
        invariant
            n == list@.len(),
            i <= n,
            out@ == list@.subrange(0, i as int),
        decreases n - i,
    {
        out.push(list[i]);
        assert(out@ =~= list@.subrange(0, i + 1));
        i += 1;
    }
    assert(list@.subrange(0, n as int) =~= list@);
    out
}

} // verus!
