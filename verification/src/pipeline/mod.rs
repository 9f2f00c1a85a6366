//! The GPU pipeline: which shaders and auxiliaries are resident on the
//! device, and what each frame asks the device to do.
//!
//! The pipeline owns the bookkeeping and takes every decision: what to
//! allocate and free when the snapshot changes, how large each buffer is,
//! what is bound to each shader slot, how many workgroups run. It hands those
//! decisions out as plain values; the owner of the device carries them out.

pub mod binding;
pub mod compute_device;
pub mod entry;
pub mod plan;
pub mod reconcile;

use crate::animation::{Animation, AnimationTargetType};
use crate::auxiliary_data::{aux_data_to_consumer_type, AuxiliaryData};
use crate::frame::FrameData;
use crate::id::{AnimationId, AuxiliaryId};
use crate::led::LED;
use crate::pipeline::binding::resolve_bindings;
use crate::pipeline::entry::{spec_entry, PipelineAuxiliary, PipelineEntry};
use crate::pipeline::plan::{
    decode_leds, led_count_of, leds_of, resident_test, runnable_test, running_shaders, spec_run,
    uploaded_auxiliaries, AuxiliaryUpload, FramePlan, ShaderRun,
};
use crate::pipeline::reconcile::{
    add_buffers, add_entries, added_animations, added_auxiliaries, additions_resolve, all_keys,
    animation_ids, auxiliary_ids, buffers_reconciled, is_first_unresolved,
    lemma_changes_in_snapshot, lemma_changes_membership, removed_animations, removed_auxiliaries,
    resized_auxiliaries, resized_keys, shaders_reconciled, unresolved_test, Reconciliation,
};
use crate::table::{text_views, Table};
use crate::world::{flatten_positions, Coord};
use vstd::prelude::*;

verus! {

/// The snapshot of world, animations and auxiliaries that one frame works
/// on. Targets are keyed by the text of their identifier.
#[derive(Debug)]
pub struct PipelineContext {
    pub led_positions: Table<Vec<Coord>>,
    pub num_leds: Table<u32>,
    pub animations: Table<Animation>,
    pub auxiliary_data: Table<AuxiliaryData>,
    pub animation_auxiliary_data: Table<Vec<AuxiliaryId>>,
}

impl PipelineContext {
    /// Every table of the snapshot is well formed.
    pub open spec fn wf(&self) -> bool {
        &&& self.led_positions.wf()
        &&& self.num_leds.wf()
        &&& self.animations.wf()
        &&& self.auxiliary_data.wf()
        &&& self.animation_auxiliary_data.wf()
    }

    /// Every animation of the snapshot has a target whose LED count and LED
    /// positions the snapshot knows.
    pub open spec fn targets_resolve(&self) -> bool {
        forall|i: int|
            0 <= i < self.animations.values().len() ==> {
                let key = (#[trigger] self.animations.values()[i])@.target.key();
                self.num_leds.contains(key) && self.led_positions.contains(key)
            }
    }

    /// The snapshot of an empty world.
    pub fn new() -> (context: Self)
        ensures
            context.wf(),
            context.targets_resolve(),
            context.led_positions.keys().len() == 0,
            context.num_leds.keys().len() == 0,
            context.animations.keys().len() == 0,
            context.auxiliary_data.keys().len() == 0,
            context.animation_auxiliary_data.keys().len() == 0,
    {
        PipelineContext {
            num_leds: Table::new(),
            led_positions: Table::new(),
            animations: Table::new(),
            auxiliary_data: Table::new(),
            animation_auxiliary_data: Table::new(),
        }
    }
}

/// The LED states that one frame computed, by animation.
#[derive(Debug)]
pub struct ComputeOutput {
    pub states: Table<Vec<LED>>,
}

/// Whether the device is free or busy with a frame.
#[derive(Debug, Clone, Copy, PartialEq, Eq, Structural)]
pub enum EmblinkenatorPipelineState {
    Idle,
    Computing,
}

/// Why the pipeline refused a request.
#[derive(Debug)]
pub enum EmblinkenatorPipelineError {
    /// The pipeline is not in the state that the request needs.
    WrongState(String),
    /// The animation's target is not in the snapshot.
    TargetDoesNotExist(AnimationId, AnimationTargetType),
    /// No snapshot has been given to the pipeline yet.
    NoContext(String),
    /// The device gave no results for the shader.
    ReadFailed(AnimationId),
    /// The device gave results for another number of LEDs than the shader
    /// was registered for: the number expected, then the number given.
    NotEnoughStates(AnimationId, u32, usize),
}

/// The bookkeeping of the GPU pipeline.
#[derive(Debug)]
pub struct EmblinkenatorPipeline {
    state: EmblinkenatorPipelineState,
    leds_per_compute_group: u32,
    compute_shaders: Table<PipelineEntry>,
    auxiliary_buffers: Table<PipelineAuxiliary>,
    current_context: Option<PipelineContext>,
}

impl EmblinkenatorPipeline {
    /// Whether the device is free or busy.
    pub closed spec fn spec_state(&self) -> EmblinkenatorPipelineState {
        self.state
    }

    /// LEDs per workgroup.
    pub closed spec fn spec_leds_per_compute_group(&self) -> u32 {
        self.leds_per_compute_group
    }

    /// The shader table: the record of each resident shader, by animation.
    pub closed spec fn shaders(&self) -> Table<PipelineEntry> {
        self.compute_shaders
    }

    /// The record of each resident auxiliary buffer, by auxiliary.
    pub closed spec fn auxiliaries(&self) -> Table<PipelineAuxiliary> {
        self.auxiliary_buffers
    }

    /// The last snapshot accepted by `before_frame`.
    pub closed spec fn context(&self) -> Option<PipelineContext> {
        self.current_context
    }

    /// The tables are well formed, every shader is recorded under the
    /// identifier of its animation, and the snapshot is well formed if there
    /// is one.
    pub open spec fn wf(&self) -> bool {
        &&& self.shaders().wf()
        &&& self.auxiliaries().wf()
        &&& self.context() is Some ==> self.context()->0.wf()
        &&& forall|k: Seq<char>| #[trigger]
            self.shaders().contains(k) ==> self.shaders().value_of(k)@.id == k
                && self.shaders().value_of(k)@.sized()
    }

    /// Everything but the state is the same in `after`.
    pub open spec fn only_state_differs(&self, after: &EmblinkenatorPipeline) -> bool {
        &&& after.spec_leds_per_compute_group() == self.spec_leds_per_compute_group()
        &&& after.shaders() == self.shaders()
        &&& after.auxiliaries() == self.auxiliaries()
        &&& after.context() == self.context()
    }

    /// Everything but the shader table is the same in `after`.
    pub open spec fn only_shaders_differ(&self, after: &EmblinkenatorPipeline) -> bool {
        &&& after.spec_state() == self.spec_state()
        &&& after.spec_leds_per_compute_group() == self.spec_leds_per_compute_group()
        &&& after.auxiliaries() == self.auxiliaries()
        &&& after.context() == self.context()
    }

    /// Everything but the auxiliary buffers is the same in `after`.
    pub open spec fn only_auxiliaries_differ(&self, after: &EmblinkenatorPipeline) -> bool {
        &&& after.spec_state() == self.spec_state()
        &&& after.spec_leds_per_compute_group() == self.spec_leds_per_compute_group()
        &&& after.shaders() == self.shaders()
        &&& after.context() == self.context()
    }

    /// An idle pipeline without shaders, auxiliaries or snapshot.
    pub fn new(leds_per_compute_group: u32) -> (pipeline: EmblinkenatorPipeline)
        ensures
            pipeline.wf(),
            pipeline.spec_state() == EmblinkenatorPipelineState::Idle,
            pipeline.spec_leds_per_compute_group() == leds_per_compute_group,
            pipeline.shaders().keys().len() == 0,
            pipeline.auxiliaries().keys().len() == 0,
            pipeline.context() is None,
    {
        EmblinkenatorPipeline {
            state: EmblinkenatorPipelineState::Idle,
            leds_per_compute_group,
            compute_shaders: Table::new(),
            auxiliary_buffers: Table::new(),
            current_context: None,
        }
    }

    /// Whether the device is free or busy.
    pub fn state(&self) -> (state: EmblinkenatorPipelineState)
        ensures
            state == self.spec_state(),
    {
        self.state
    }

    /// LEDs per workgroup.
    pub fn leds_per_compute_group(&self) -> (n: u32)
        ensures
            n == self.spec_leds_per_compute_group(),
    {
        self.leds_per_compute_group
    }

    /// The record of the shader of `id`, if it is resident.
    pub fn shader(&self, id: &AnimationId) -> (entry: Option<&PipelineEntry>)
        requires
            self.wf(),
        ensures
            entry is Some <==> self.shaders().contains(id@),
            entry is Some ==> *entry->0 == self.shaders().value_of(id@),
    {
        self.compute_shaders.get(id.key())
    }

    /// The animations whose shader is resident, in table order.
    pub fn shader_ids(&self) -> (ids: Vec<AnimationId>)
        requires
            self.wf(),
        ensures
            crate::pipeline::reconcile::animation_keys(ids@) == self.shaders().keys(),
    {
        let keys = all_keys(&self.compute_shaders);
        animation_ids(&keys)
    }

    /// The auxiliaries whose buffer is resident, in table order.
    pub fn auxiliary_ids(&self) -> (ids: Vec<AuxiliaryId>)
        requires
            self.wf(),
        ensures
            crate::pipeline::binding::auxiliary_keys(ids@) == self.auxiliaries().keys(),
    {
        let keys = all_keys(&self.auxiliary_buffers);
        auxiliary_ids(&keys)
    }

    /// The record of the buffer of `id`, if it is resident.
    pub fn auxiliary(&self, id: &AuxiliaryId) -> (buffer: Option<PipelineAuxiliary>)
        requires
            self.wf(),
        ensures
            buffer is Some <==> self.auxiliaries().contains(id@),
            buffer is Some ==> buffer->0 == self.auxiliaries().value_of(id@),
    {
        match self.auxiliary_buffers.get(id.key()) {
            Some(buffer) => Some(*buffer),
            None => None,
        }
    }

    /// The resident shaders and auxiliary buffers are those of the snapshot:
    /// one shader per animation and one buffer per auxiliary, and none where
    /// there is no snapshot yet.
    pub open spec fn in_step(&self) -> bool {
        match self.context() {
            Some(c) => {
                &&& forall|k: Seq<char>| #[trigger]
                    self.auxiliaries().contains(k) <==> c.auxiliary_data.contains(k)
                &&& forall|k: Seq<char>| #[trigger]
                    self.shaders().contains(k) <==> c.animations.contains(k)
            },
            None => self.auxiliaries().keys().len() == 0 && self.shaders().keys().len() == 0,
        }
    }

    /// `after` is this pipeline once it has taken `context` as its snapshot
    /// and handed out `changes`: the changes are those by which `context`
    /// differs from the snapshot before, and the resident auxiliary buffers
    /// and shaders are brought in line with them.
    pub open spec fn reconciled(
        &self,
        after: &EmblinkenatorPipeline,
        context: PipelineContext,
        changes: Reconciliation,
    ) -> bool {
        &&& after.wf()
        &&& after.spec_leds_per_compute_group() == self.spec_leds_per_compute_group()
        &&& after.spec_state() == self.spec_state()
        &&& changes.describes(self.context(), context)
        &&& after.context() == Some(context)
        &&& buffers_reconciled(self.auxiliaries(), after.auxiliaries(), self.context(), context)
        &&& shaders_reconciled(
            self.shaders(),
            after.shaders(),
            self.context(),
            context,
            self.spec_leds_per_compute_group(),
        )
        &&& self.in_step() ==> after.in_step()
    }

    /// `after` is this pipeline once it has planned the frame `frame` as
    /// `plan`: the plan is that of the frame on the pipeline's snapshot, and
    /// the device is busy.
    pub open spec fn planned(
        &self,
        after: &EmblinkenatorPipeline,
        frame: FrameData,
        plan: FramePlan,
    ) -> bool {
        &&& self.only_state_differs(after)
        &&& after.spec_state() == EmblinkenatorPipelineState::Computing
        &&& self.context() is Some
        &&& plan.describes(frame, self.context()->0, self.shaders(), self.auxiliaries())
    }

    /// `after` is this pipeline once it has turned `readback` into `output`:
    /// one entry per resident shader, in table order, holding the LEDs that
    /// the values read back for the shader make, as many as the shader was
    /// registered for; and the device is free.
    pub open spec fn results_read(
        &self,
        after: &EmblinkenatorPipeline,
        readback: Table<Vec<u32>>,
        output: ComputeOutput,
    ) -> bool {
        &&& self.only_state_differs(after)
        &&& after.spec_state() == EmblinkenatorPipelineState::Idle
        &&& output.states.wf()
        &&& output.states.keys() == self.shaders().keys()
        &&& forall|i: int|
            0 <= i < output.states.keys().len() ==> (#[trigger] output.states.values()[i])@
                == leds_of(readback.value_of(self.shaders().keys()[i])@)
                && output.states.values()[i]@.len() == self.shaders().values()[i]@.num_leds
    }

    /// Every resident shader is sized for the number of LEDs that `context`
    /// gives for the shader's target.
    pub open spec fn sized_for(&self, context: PipelineContext) -> bool {
        forall|k: Seq<char>| #[trigger]
            self.shaders().contains(k) ==> context.num_leds.contains(
                self.shaders().value_of(k)@.target_id,
            ) && self.shaders().value_of(k)@.num_leds == context.num_leds.value_of(
                self.shaders().value_of(k)@.target_id,
            )
    }

    /// Takes `context` as the snapshot of the coming frame and brings the
    /// resident shaders and auxiliary buffers in line with it, by what
    /// differs from the previous snapshot: auxiliaries and animations that
    /// disappeared are dropped, new ones are added, and an auxiliary whose
    /// size changed is dropped and added again.
    ///
    /// Refused with `WrongState` unless the pipeline is idle, and with
    /// `TargetDoesNotExist` for the first new animation whose target has no
    /// LED count in `context`; nothing changes then, so that the next
    /// snapshot is compared with the same previous one.
    pub fn before_frame(&mut self, context: PipelineContext) -> (result: Result<
        Reconciliation,
        EmblinkenatorPipelineError,
    >)
        requires
            old(self).wf(),
            context.wf(),
        ensures
            final(self).wf(),
            final(self).spec_leds_per_compute_group() == old(self).spec_leds_per_compute_group(),
            final(self).spec_state() == old(self).spec_state(),
            old(self).spec_state() != EmblinkenatorPipelineState::Idle ==> (result matches Err(
                EmblinkenatorPipelineError::WrongState(_),
            )) && *final(self) == *old(self),
            old(self).spec_state() == EmblinkenatorPipelineState::Idle && !additions_resolve(
                old(self).context(),
                context,
            ) ==> (result matches Err(EmblinkenatorPipelineError::TargetDoesNotExist(a, t))
                && is_first_unresolved(
                old(self).context(),
                context,
                added_animations(old(self).context(), context).index_of(a@),
            ) && added_animations(old(self).context(), context).contains(a@) && t@
                == context.animations.value_of(a@)@.target) && *final(self) == *old(self),
            old(self).spec_state() == EmblinkenatorPipelineState::Idle && additions_resolve(
                old(self).context(),
                context,
            ) ==> (result matches Ok(changes) && old(self).reconciled(final(self), context, changes)),
    {
        if self.state != EmblinkenatorPipelineState::Idle {
            return Err(
                EmblinkenatorPipelineError::WrongState(
                    "Pipeline must be in IDLE state in order to call before_frame".to_string(),
                ),
            );
        }
        let ghost prev = self.current_context;
        let removed_aux: Vec<String>;
        let resized_aux: Vec<String>;
        let added_aux: Vec<String>;
        let removed_anim: Vec<String>;
        let added_anim: Vec<String>;
        match &self.current_context {
            Some(previous) => {
                removed_aux = previous.auxiliary_data.missing_from(&context.auxiliary_data);
                resized_aux = resized_keys(&previous.auxiliary_data, &context.auxiliary_data);
                added_aux = context.auxiliary_data.missing_from(&previous.auxiliary_data);
                removed_anim = previous.animations.missing_from(&context.animations);
                added_anim = context.animations.missing_from(&previous.animations);
            },
            None => {
                removed_aux = Vec::new();
                resized_aux = Vec::new();
                added_aux = all_keys(&context.auxiliary_data);
                removed_anim = Vec::new();
                added_anim = all_keys(&context.animations);
                assert(text_views(removed_aux@) =~= removed_auxiliaries(prev, context));
                assert(text_views(resized_aux@) =~= resized_auxiliaries(prev, context));
                assert(text_views(removed_anim@) =~= removed_animations(prev, context));
            },
        }
        assert(text_views(removed_aux@) == removed_auxiliaries(prev, context));
        assert(text_views(resized_aux@) == resized_auxiliaries(prev, context));
        assert(text_views(added_aux@) == added_auxiliaries(prev, context));
        assert(text_views(removed_anim@) == removed_animations(prev, context));
        assert(text_views(added_anim@) == added_animations(prev, context));
        proof {
            lemma_changes_in_snapshot(prev, context);
        }
        let n = added_anim.len();
        let mut i: usize = 0;
        while i < n
            invariant
                context.wf(),
                n == added_anim@.len(),
                i <= n,
                *self == *old(self),
                self.wf(),
                self.state == EmblinkenatorPipelineState::Idle,
                prev == old(self).context(),
                text_views(added_anim@) == added_animations(prev, context),
                added_animations(prev, context).no_duplicates(),
                forall|j: int|
                    0 <= j < added_animations(prev, context).len() ==> context.animations.contains(
                        #[trigger] added_animations(prev, context)[j],
                    ),
                forall|j: int|
                    0 <= j < i ==> !unresolved_test(context)(
                        #[trigger] added_animations(prev, context)[j],
                    ),
            decreases n - i,
        {
            let key = &added_anim[i];
            assert(text_views(added_anim@)[i as int] == key@);
            assert(context.animations.contains(added_animations(prev, context)[i as int]));
            match context.animations.get(key) {
                Some(animation) => {
                    let target = animation.get_target_type();
                    let target_id = target.target_id();
                    if !context.num_leds.contains_key(&target_id) {
                        proof {
                            let added = added_animations(prev, context);
                            assert(added.contains(key@));
                            let at = added.index_of(key@);
                            assert(0 <= at < added.len() && added[at] == key@);
                            assert(at == i);
                        }
                        return Err(
                            EmblinkenatorPipelineError::TargetDoesNotExist(
                                AnimationId::new_from(key.clone()),
                                target,
                            ),
                        );
                    }
                },
                None => {},
            }
            i += 1;
        }
        assert(additions_resolve(prev, context));
        let ghost buffers0 = self.auxiliary_buffers;
        self.auxiliary_buffers.remove_all(&removed_aux);
        self.auxiliary_buffers.remove_all(&resized_aux);
        let ghost buffers1 = self.auxiliary_buffers;
        add_buffers(&mut self.auxiliary_buffers, &context.auxiliary_data, &added_aux);
        let ghost buffers2 = self.auxiliary_buffers;
        add_buffers(&mut self.auxiliary_buffers, &context.auxiliary_data, &resized_aux);
        let ghost shaders0 = self.compute_shaders;
        self.compute_shaders.remove_all(&removed_anim);
        add_entries(
            &mut self.compute_shaders,
            &context,
            self.leds_per_compute_group,
            &added_anim,
        );
        let changes = Reconciliation {
            removed_auxiliaries: auxiliary_ids(&removed_aux),
            resized_auxiliaries: auxiliary_ids(&resized_aux),
            added_auxiliaries: auxiliary_ids(&added_aux),
            removed_animations: animation_ids(&removed_anim),
            added_animations: animation_ids(&added_anim),
        };
        proof {
            let removed = removed_auxiliaries(prev, context);
            let resized = resized_auxiliaries(prev, context);
            let added = added_auxiliaries(prev, context);
            let after = self.auxiliary_buffers;
            assert forall|k: Seq<char>|
                added.contains(k) || resized.contains(k) implies #[trigger] after.value_of(k)
                == spec_auxiliary_buffer(context.auxiliary_data.value_of(k)@) by {
                if !resized.contains(k) {
                    assert(buffers2.contains(k));
                    assert(after.value_of(k) == buffers2.value_of(k));
                }
            }
            assert forall|k: Seq<char>|
                buffers0.contains(k) && !removed.contains(k) && !resized.contains(k)
                    && !added.contains(k) implies #[trigger] after.value_of(k) == buffers0.value_of(
                k,
            ) by {
                assert(buffers1.contains(k));
                assert(buffers2.contains(k));
                assert(buffers2.value_of(k) == buffers1.value_of(k));
                assert(after.value_of(k) == buffers2.value_of(k));
            }
            assert(buffers_reconciled(buffers0, after, prev, context));
            if old(self).in_step() {
                match prev {
                    Some(p) => {
                        lemma_changes_membership(p, context);
                    },
                    None => {
                        assert forall|k: Seq<char>| !buffers0.contains(k) by {
                            if buffers0.contains(k) {
                                buffers0.lemma_contains(k);
                            }
                        }
                        assert forall|k: Seq<char>| !shaders0.contains(k) by {
                            if shaders0.contains(k) {
                                shaders0.lemma_contains(k);
                            }
                        }
                    },
                }
            }
        }
        self.current_context = Some(context);
        Ok(changes)
    }

    /// Plans the frame `frame_data` on the current snapshot and marks the
    /// device busy. The plan uploads the current value of every auxiliary of
    /// the snapshot that has a resident buffer, and runs every resident
    /// shader whose target has positions in the snapshot; a shader without
    /// positions is left out of this frame.
    ///
    /// Refused with `WrongState` unless the pipeline is idle and with
    /// `NoContext` before the first snapshot; nothing changes then.
    pub fn compute_frame(&mut self, frame_data: &FrameData) -> (result: Result<
        FramePlan,
        EmblinkenatorPipelineError,
    >)
        requires
            old(self).wf(),
        ensures
            final(self).wf(),
            old(self).only_state_differs(final(self)),
            old(self).spec_state() != EmblinkenatorPipelineState::Idle ==> (result matches Err(
                EmblinkenatorPipelineError::WrongState(_),
            )) && final(self).spec_state() == old(self).spec_state(),
            old(self).spec_state() == EmblinkenatorPipelineState::Idle && old(self).context()
                is None ==> (result matches Err(EmblinkenatorPipelineError::NoContext(_)))
                && final(self).spec_state() == old(self).spec_state(),
            result is Err ==> *final(self) == *old(self),
            old(self).spec_state() == EmblinkenatorPipelineState::Idle && old(self).context()
                is Some ==> (result matches Ok(plan) && old(self).planned(
                final(self),
                *frame_data,
                plan,
            )),
    {
        if self.state != EmblinkenatorPipelineState::Idle {
            return Err(
                EmblinkenatorPipelineError::WrongState(
                    "Pipeline must be in IDLE state to start frame compute".to_string(),
                ),
            );
        }
        let plan = match &self.current_context {
            None => {
                return Err(
                    EmblinkenatorPipelineError::NoContext(
                        "Pipeline does not have a context set".to_string(),
                    ),
                );
            },
            Some(context) => {
                let auxiliary_uploads = plan_uploads(context, &self.auxiliary_buffers);
                let shader_runs = plan_runs(context, &self.compute_shaders, &self.auxiliary_buffers);
                FramePlan { frame: *frame_data, auxiliary_uploads, shader_runs }
            },
        };
        self.state = EmblinkenatorPipelineState::Computing;
        Ok(plan)
    }

    /// Takes the channel values that the device gave for each shader, by
    /// animation, groups them by three into LEDs and marks the device free.
    /// Every resident shader must have been given values for exactly the
    /// number of LEDs it was registered for: the first shader, in table
    /// order, without values is refused with `ReadFailed`, the first with
    /// another number of LEDs with `NotEnoughStates`; nothing changes then.
    pub fn read_led_states(&mut self, readback: &Table<Vec<u32>>) -> (result: Result<
        ComputeOutput,
        EmblinkenatorPipelineError,
    >)
        requires
            old(self).wf(),
            readback.wf(),
        ensures
            final(self).wf(),
            old(self).only_state_differs(final(self)),
            result is Ok <==> readback_complete(old(self).shaders(), *readback),
            result matches Ok(output) ==> old(self).results_read(final(self), *readback, output),
            result is Err ==> *final(self) == *old(self),
            result matches Err(e) ==> match e {
                EmblinkenatorPipelineError::ReadFailed(a) => old(self).shaders().contains(a@)
                    && first_unread(
                    old(self).shaders(),
                    *readback,
                    old(self).shaders().index_of(a@),
                ) && !readback.contains(a@),
                EmblinkenatorPipelineError::NotEnoughStates(a, expected, got) => old(self).shaders().contains(a@) && first_unread(
                    old(self).shaders(),
                    *readback,
                    old(self).shaders().index_of(a@),
                ) && readback.contains(a@) && expected == old(self).shaders().value_of(
                    a@,
                )@.num_leds && got == led_count_of(readback.value_of(a@)@.len()) && got
                    != expected,
                _ => false,
            },
    {
        let mut states: Table<Vec<LED>> = Table::new();
        let n = self.compute_shaders.len();
        let mut i: usize = 0;
        while i < n
            invariant
                *self == *old(self),
                self.wf(),
                readback.wf(),
                n == self.compute_shaders.keys().len(),
                i <= n,
                states.wf(),
                states.keys() == self.compute_shaders.keys().subrange(0, i as int),
                forall|j: int|
                    0 <= j < i ==> shader_read(
                        self.compute_shaders.keys()[j],
                        self.compute_shaders.values()[j]@.num_leds,
                        *readback,
                    ),
                forall|j: int|
                    0 <= j < i ==> (#[trigger] states.values()[j])@ == leds_of(
                        readback.value_of(self.compute_shaders.keys()[j])@,
                    ) && states.values()[j]@.len() == self.compute_shaders.values()[j]@.num_leds,
            decreases n - i,
        {
            let entry = self.compute_shaders.value_at(i);
            let key = self.compute_shaders.key_at(i);
            proof {
                self.compute_shaders.lemma_index_of(i as int);
            }
            assert(entry@.id == key@);
            let values = match readback.get(key) {
                None => {
                    return Err(EmblinkenatorPipelineError::ReadFailed(entry.id().clone()));
                },
                Some(values) => values,
            };
            let leds = decode_leds(values);
            if leds.len() > 0xffff_ffff || leds.len() as u32 != entry.num_leds() {
                return Err(
                    EmblinkenatorPipelineError::NotEnoughStates(
                        entry.id().clone(),
                        entry.num_leds(),
                        leds.len(),
                    ),
                );
            }
            proof {
                let keys = self.compute_shaders.keys();
                if states.contains(key@) {
                    states.lemma_contains(key@);
                    assert(keys[states.index_of(key@)] == keys[i as int]);
                }
                assert(keys.subrange(0, i + 1) =~= keys.subrange(0, i as int).push(key@));
            }
            states.insert(key.clone(), leds);
            i += 1;
        }
        assert(self.compute_shaders.keys().subrange(0, n as int) =~= self.compute_shaders.keys());
        self.state = EmblinkenatorPipelineState::Idle;
        Ok(ComputeOutput { states })
    }

    /// Registers the shader of `animation` under `id`, sized for the LED
    /// count that `context` gives for the animation's target. Refused with
    /// `WrongState` unless the pipeline is idle, and with
    /// `TargetDoesNotExist` where `context` has no LED count for the target;
    /// nothing changes then.
    pub fn add_shader(
        &mut self,
        context: &PipelineContext,
        id: AnimationId,
        animation: Animation,
    ) -> (result: Result<(), EmblinkenatorPipelineError>)
        requires
            old(self).wf(),
            context.wf(),
        ensures
            final(self).wf(),
            old(self).only_shaders_differ(final(self)),
            old(self).spec_state() != EmblinkenatorPipelineState::Idle ==> (result matches Err(
                EmblinkenatorPipelineError::WrongState(_),
            )) && final(self).shaders() == old(self).shaders(),
            old(self).spec_state() == EmblinkenatorPipelineState::Idle
                && !context.num_leds.contains(animation@.target.key()) ==> (result matches Err(
                EmblinkenatorPipelineError::TargetDoesNotExist(a, t),
            ) && a@ == animation@.id && t@ == animation@.target) && final(self).shaders() == old(self).shaders(),
            old(self).spec_state() == EmblinkenatorPipelineState::Idle && context.num_leds.contains(
                animation@.target.key(),
            ) ==> result is Ok && old(self).shaders().stored(&final(self).shaders(), id@)
                && final(self).shaders().value_of(id@)@ == spec_entry(
                id@,
                animation@,
                context.num_leds.value_of(animation@.target.key()),
                old(self).spec_leds_per_compute_group(),
            ),
    {
        if self.state != EmblinkenatorPipelineState::Idle {
            return Err(
                EmblinkenatorPipelineError::WrongState(
                    "Pipeline must be in IDLE state to add a new shader".to_string(),
                ),
            );
        }
        let target = animation.get_target_type();
        let target_id = target.target_id();
        let num_leds = match context.num_leds.get(&target_id) {
            None => {
                return Err(EmblinkenatorPipelineError::TargetDoesNotExist(animation.id(), target));
            },
            Some(num_leds) => *num_leds,
        };
        let key = id.unprotect();
        let entry = PipelineEntry::new(id, &animation, num_leds, self.leds_per_compute_group);
        self.compute_shaders.insert(key, entry);
        Ok(())
    }

    /// Forgets the shader of `id`; nothing changes where it is not resident.
    pub fn remove_shader(&mut self, id: &AnimationId)
        requires
            old(self).wf(),
        ensures
            final(self).wf(),
            old(self).only_shaders_differ(final(self)),
            old(self).shaders().dropped(&final(self).shaders(), id@),
    {
        let _gone = self.compute_shaders.remove(id.key());
    }

    /// Records a buffer for the auxiliary `id`, sized for the number of
    /// scalars that `auxiliary` states times the bytes per scalar of its
    /// shape.
    pub fn add_auxiliary(&mut self, id: AuxiliaryId, auxiliary: AuxiliaryData)
        requires
            old(self).wf(),
        ensures
            final(self).wf(),
            old(self).only_auxiliaries_differ(final(self)),
            old(self).auxiliaries().stored(&final(self).auxiliaries(), id@),
            final(self).auxiliaries().value_of(id@) == spec_auxiliary_buffer(auxiliary@),
    {
        let buffer = auxiliary_buffer(&auxiliary);
        self.auxiliary_buffers.insert(id.unprotect(), buffer);
    }

    /// Forgets the buffer of the auxiliary `id`; nothing changes where it is
    /// not resident.
    pub fn remove_auxiliary(&mut self, id: &AuxiliaryId)
        requires
            old(self).wf(),
        ensures
            final(self).wf(),
            old(self).only_auxiliaries_differ(final(self)),
            old(self).auxiliaries().dropped(&final(self).auxiliaries(), id@),
    {
        let _gone = self.auxiliary_buffers.remove(id.key());
    }
}

/// The device gave values for the shader recorded under `key`, for exactly
/// `num_leds` LEDs.
pub open spec fn shader_read(key: Seq<char>, num_leds: u32, readback: Table<Vec<u32>>) -> bool {
    readback.contains(key) && led_count_of(readback.value_of(key)@.len()) == num_leds
}

/// Shader `at` is the first, in table order, that the device did not give
/// values for, or gave values for another number of LEDs than it was
/// registered for.
pub open spec fn first_unread(shaders: Table<PipelineEntry>, readback: Table<Vec<u32>>, at: int) -> bool {
    &&& 0 <= at < shaders.keys().len()
    &&& !shader_read(shaders.keys()[at], shaders.values()[at]@.num_leds, readback)
    &&& forall|j: int|
        0 <= j < at ==> shader_read(
            #[trigger] shaders.keys()[j],
            shaders.values()[j]@.num_leds,
            readback,
        )
}

/// The device gave values for every resident shader, each for the number of
/// LEDs the shader was registered for.
pub open spec fn readback_complete(shaders: Table<PipelineEntry>, readback: Table<Vec<u32>>) -> bool {
    forall|i: int|
        0 <= i < shaders.keys().len() ==> shader_read(
            #[trigger] shaders.keys()[i],
            shaders.values()[i]@.num_leds,
            readback,
        )
}

/// The uploads of a frame: the layout of the current value of every
/// auxiliary of `context` that has a resident buffer.
pub fn plan_uploads(context: &PipelineContext, buffers: &Table<PipelineAuxiliary>) -> (uploads: Vec<
    AuxiliaryUpload,
>)
    requires
        context.wf(),
        buffers.wf(),
    ensures
        uploads@.len() == uploaded_auxiliaries(*context, *buffers).len(),
        forall|i: int|
            0 <= i < uploads@.len() ==> {
                let upload = #[trigger] uploads@[i];
                let key = uploaded_auxiliaries(*context, *buffers)[i];
                upload.auxiliary@ == key && context.auxiliary_data.value_of(key).data@.laid_out_as(
                    upload.bytes@,
                )
            },
{
    let mut uploads: Vec<AuxiliaryUpload> = Vec::new();
    let source = &context.auxiliary_data;
    let n = source.len();
    let mut i: usize = 0;
    assert(source.keys().subrange(0, 0) =~= Seq::<Seq<char>>::empty());
    proof {
        crate::table::lemma_filter_empty(resident_test(*buffers));
    }
    while i < n
        invariant
            context.wf(),
            buffers.wf(),
            source == &context.auxiliary_data,
            n == source.keys().len(),
            i <= n,
            uploads@.len() == source.keys().subrange(0, i as int).filter(
                resident_test(*buffers),
            ).len(),
            forall|j: int|
                0 <= j < uploads@.len() ==> {
                    let upload = #[trigger] uploads@[j];
                    let key = source.keys().subrange(0, i as int).filter(
                        resident_test(*buffers),
                    )[j];
                    upload.auxiliary@ == key && source.value_of(key).data@.laid_out_as(
                        upload.bytes@,
                    )
                },
        decreases n - i,
    {
        let key = source.key_at(i);
        proof {
            let front = source.keys().subrange(0, i as int);
            assert(source.keys().subrange(0, i + 1) =~= front.push(source.keys()[i as int]));
            front.lemma_filter_push(source.keys()[i as int], resident_test(*buffers));
            source.lemma_index_of(i as int);
        }
        if buffers.contains_key(key) {
            let bytes = source.value_at(i).data.to_data_buffer();
            uploads.push(AuxiliaryUpload { auxiliary: AuxiliaryId::new_from(key.clone()), bytes });
        }
        i += 1;
    }
    assert(source.keys().subrange(0, n as int) =~= source.keys());
    uploads
}

/// The runs of a frame: the work of every shader of `shaders` whose target
/// has positions in `context`.
pub fn plan_runs(
    context: &PipelineContext,
    shaders: &Table<PipelineEntry>,
    buffers: &Table<PipelineAuxiliary>,
) -> (runs: Vec<ShaderRun>)
    requires
        context.wf(),
        shaders.wf(),
        buffers.wf(),
    ensures
        runs@.len() == running_shaders(*shaders, *context).len(),
        forall|i: int|
            0 <= i < runs@.len() ==> (#[trigger] runs@[i])@ == spec_run(
                shaders.value_of(running_shaders(*shaders, *context)[i])@,
                *context,
                *buffers,
            ),
{
    let mut runs: Vec<ShaderRun> = Vec::new();
    let n = shaders.len();
    let mut i: usize = 0;
    assert(shaders.keys().subrange(0, 0) =~= Seq::<Seq<char>>::empty());
    proof {
        crate::table::lemma_filter_empty(runnable_test(*shaders, *context));
    }
    while i < n
        invariant
            context.wf(),
            shaders.wf(),
            buffers.wf(),
            n == shaders.keys().len(),
            i <= n,
            runs@.len() == shaders.keys().subrange(0, i as int).filter(
                runnable_test(*shaders, *context),
            ).len(),
            forall|j: int|
                0 <= j < runs@.len() ==> (#[trigger] runs@[j])@ == spec_run(
                    shaders.value_of(
                        shaders.keys().subrange(0, i as int).filter(
                            runnable_test(*shaders, *context),
                        )[j],
                    )@,
                    *context,
                    *buffers,
                ),
        decreases n - i,
    {
        let entry = shaders.value_at(i);
        proof {
            let front = shaders.keys().subrange(0, i as int);
            assert(shaders.keys().subrange(0, i + 1) =~= front.push(shaders.keys()[i as int]));
            front.lemma_filter_push(shaders.keys()[i as int], runnable_test(*shaders, *context));
            shaders.lemma_index_of(i as int);
        }
        match context.led_positions.get(entry.target_id()) {
            None => {},
            Some(positions) => {
                let bindings = match context.animation_auxiliary_data.get(entry.id().key()) {
                    Some(mapped) => resolve_bindings(entry.auxiliary_types(), mapped, buffers),
                    None => {
                        let unmapped: Vec<AuxiliaryId> = Vec::new();
                        assert(crate::pipeline::binding::auxiliary_keys(unmapped@) =~= Seq::<
                            Seq<char>,
                        >::empty());
                        resolve_bindings(entry.auxiliary_types(), &unmapped, buffers)
                    },
                };
                runs.push(
                    ShaderRun {
                        animation: entry.id().clone(),
                        positions: flatten_positions(positions),
                        bindings,
                        num_leds: entry.num_leds(),
                        result_size: entry.result_size(),
                        work_group_count: entry.work_group_count(),
                    },
                );
            },
        }
        i += 1;
    }
    assert(shaders.keys().subrange(0, n as int) =~= shaders.keys());
    runs
}

/// The stand-in buffer of a shape: its record and its contents.
#[derive(Debug)]
pub struct EmptyAuxiliary {
    pub record: PipelineAuxiliary,
    pub contents: Vec<u8>,
}

/// The stand-in buffers, one per shape, in the order of the shapes. They
/// are made once, so that substituting one never allocates while a frame is
/// planned.
pub fn empty_auxiliary_buffers() -> (buffers: Vec<EmptyAuxiliary>)
    ensures
        buffers@.len() == crate::auxiliary_data::AuxiliaryDataTypeConsumer::spec_all().len(),
        forall|i: int|
            0 <= i < buffers@.len() ==> {
                let kind = crate::auxiliary_data::AuxiliaryDataTypeConsumer::spec_all()[i];
                (#[trigger] buffers@[i]).record.aux_type == kind && buffers@[i].record.size
                    == kind.empty_buffer_len() && buffers@[i].contents@
                    == kind.spec_empty_buffer()
            },
{
    let kinds = crate::auxiliary_data::AuxiliaryDataTypeConsumer::all();
    let mut buffers: Vec<EmptyAuxiliary> = Vec::new();
    let n = kinds.len();
    let mut i: usize = 0;
    while i < n
        invariant
            kinds@ == crate::auxiliary_data::AuxiliaryDataTypeConsumer::spec_all(),
            n == kinds@.len(),
            i <= n,
            buffers@.len() == i,
            forall|j: int|
                0 <= j < i ==> {
                    let kind = kinds@[j];
                    (#[trigger] buffers@[j]).record.aux_type == kind && buffers@[j].record.size
                        == kind.empty_buffer_len() && buffers@[j].contents@
                        == kind.spec_empty_buffer()
                },
        decreases n - i,
    {
        let kind = kinds[i];
        let contents = kind.empty_buffer();
        let size = contents.len() as u64;
        buffers.push(EmptyAuxiliary { record: PipelineAuxiliary { aux_type: kind, size }, contents });
        i += 1;
    }
    buffers
}

/// The buffer record of an auxiliary: its shape, and its number of scalars
/// times the bytes per scalar of the shape.
pub open spec fn spec_auxiliary_buffer(auxiliary: crate::auxiliary_data::AuxiliaryDataView) -> PipelineAuxiliary {
    PipelineAuxiliary {
        aux_type: auxiliary.data.kind,
        size: (auxiliary.size * auxiliary.data.kind.spec_mem_size()) as u64,
    }
}

/// The buffer record of an auxiliary.
pub fn auxiliary_buffer(auxiliary: &AuxiliaryData) -> (buffer: PipelineAuxiliary)
    ensures
        buffer == spec_auxiliary_buffer(auxiliary@),
{
    let aux_type = aux_data_to_consumer_type(&auxiliary.data);
    let scalar: u64 = aux_type.mem_size();
    assert(auxiliary.size * scalar <= 0xffff_ffff * 4) by (nonlinear_arith)
        requires
            auxiliary.size <= 0xffff_ffff,
            scalar <= 4,
    ;
    let size: u64 = (auxiliary.size as u64) * scalar;
    PipelineAuxiliary { aux_type, size }
}

/// A snapshot whose animations all have a target with an LED count is never
/// refused for a missing target, whatever snapshot came before it.
pub proof fn lemma_resolving_snapshot_is_accepted(
    previous: Option<PipelineContext>,
    context: PipelineContext,
)
    requires
        context.wf(),
        previous is Some ==> previous->0.wf(),
        context.targets_resolve(),
    ensures
        additions_resolve(previous, context),
{
    lemma_changes_in_snapshot(previous, context);
    let added = added_animations(previous, context);
    assert forall|i: int| 0 <= i < added.len() implies !unresolved_test(context)(
        #[trigger] added[i],
    ) by {
        assert(context.animations.contains(added[i]));
        context.animations.lemma_contains(added[i]);
        let at = context.animations.index_of(added[i]);
        assert(context.animations.value_of(added[i]) == context.animations.values()[at]);
    }
}

/// The first snapshot sizes every shader: after `before_frame` has taken
/// `context` on a pipeline that had no snapshot and no shader, every
/// resident shader is sized for the number of LEDs that `context` gives for
/// its target.
pub proof fn lemma_first_snapshot_sizes_shaders(
    before: EmblinkenatorPipeline,
    after: EmblinkenatorPipeline,
    context: PipelineContext,
    changes: Reconciliation,
)
    requires
        before.wf(),
        context.wf(),
        before.context() is None,
        before.in_step(),
        additions_resolve(before.context(), context),
        before.reconciled(&after, context, changes),
    ensures
        after.sized_for(context),
{
    let added = added_animations(before.context(), context);
    assert forall|k: Seq<char>| #[trigger] after.shaders().contains(k) implies context.num_leds.contains(
        after.shaders().value_of(k)@.target_id,
    ) && after.shaders().value_of(k)@.num_leds == context.num_leds.value_of(
        after.shaders().value_of(k)@.target_id,
    ) by {
        if before.shaders().contains(k) {
            before.shaders().lemma_contains(k);
        }
        assert(added.contains(k));
        let at = choose|at: int| 0 <= at < added.len() && added[at] == k;
        assert(!unresolved_test(context)(added[at]));
    }
}

/// A later snapshot keeps every shader sized, provided no target of a
/// shader that stays has changed its number of LEDs: after `before_frame`
/// has taken `context` on a pipeline whose shaders were sized for the
/// snapshot before, every resident shader is sized for `context`.
pub proof fn lemma_later_snapshot_sizes_shaders(
    before: EmblinkenatorPipeline,
    after: EmblinkenatorPipeline,
    context: PipelineContext,
    changes: Reconciliation,
)
    requires
        before.wf(),
        context.wf(),
        before.context() is Some,
        before.in_step(),
        before.sized_for(before.context()->0),
        additions_resolve(before.context(), context),
        before.reconciled(&after, context, changes),
        forall|k: Seq<char>| #[trigger]
            before.shaders().contains(k) && context.animations.contains(k) ==> {
                let target = before.shaders().value_of(k)@.target_id;
                context.num_leds.contains(target) && context.num_leds.value_of(target)
                    == before.context()->0.num_leds.value_of(target)
            },
    ensures
        after.sized_for(context),
{
    let previous = before.context()->0;
    let added = added_animations(before.context(), context);
    let removed = removed_animations(before.context(), context);
    lemma_changes_membership(previous, context);
    assert forall|k: Seq<char>| #[trigger] after.shaders().contains(k) implies context.num_leds.contains(
        after.shaders().value_of(k)@.target_id,
    ) && after.shaders().value_of(k)@.num_leds == context.num_leds.value_of(
        after.shaders().value_of(k)@.target_id,
    ) by {
        if added.contains(k) {
            let at = choose|at: int| 0 <= at < added.len() && added[at] == k;
            assert(!unresolved_test(context)(added[at]));
        } else {
            assert(before.shaders().contains(k) && !removed.contains(k));
            assert(previous.animations.contains(k));
            assert(context.animations.contains(k));
            assert(after.shaders().value_of(k) == before.shaders().value_of(k));
        }
    }
}

/// Every entry of a frame's output has as many LEDs as the snapshot gives
/// for the target of its animation, where the resident shaders are sized
/// for the snapshot.
pub proof fn lemma_output_matches_led_counts(
    before: EmblinkenatorPipeline,
    after: EmblinkenatorPipeline,
    readback: Table<Vec<u32>>,
    output: ComputeOutput,
    context: PipelineContext,
)
    requires
        before.wf(),
        before.sized_for(context),
        before.results_read(&after, readback, output),
    ensures
        forall|i: int|
            0 <= i < output.states.keys().len() ==> (#[trigger] output.states.values()[i])@.len()
                == context.num_leds.value_of(before.shaders().values()[i]@.target_id),
{
    assert forall|i: int| 0 <= i < output.states.keys().len() implies (
    #[trigger] output.states.values()[i])@.len() == context.num_leds.value_of(
        before.shaders().values()[i]@.target_id,
    ) by {
        before.shaders().lemma_index_of(i);
    }
}

/// Registering a shader under an identifier that is not resident and then
/// removing it leaves the shader table with the identifiers it had, in the
/// order it had them.
pub proof fn lemma_add_then_remove_shader(
    before: Table<PipelineEntry>,
    added: Table<PipelineEntry>,
    removed: Table<PipelineEntry>,
    id: Seq<char>,
)
    requires
        before.wf(),
        !before.contains(id),
        before.stored(&added, id),
        added.dropped(&removed, id),
    ensures
        removed.keys() == before.keys(),
        forall|k: Seq<char>| removed.contains(k) <==> before.contains(k),
        forall|k: Seq<char>| before.contains(k) ==> removed.value_of(k) == before.value_of(k),
{
    crate::table::lemma_insert_then_remove(before, id);
    assert forall|k: Seq<char>| removed.contains(k) <==> before.contains(k) by {
        if k != id {
            assert(removed.contains(k) <==> added.contains(k));
            assert(added.contains(k) <==> before.contains(k));
        }
    }
    assert forall|k: Seq<char>| before.contains(k) implies removed.value_of(k) == before.value_of(
        k,
    ) by {
        assert(added.contains(k) <==> before.contains(k));
        assert(added.value_of(k) == before.value_of(k));
        assert(removed.value_of(k) == added.value_of(k));
    }
}

} // verus!
