//! What one frame asks of the device, and what comes back.

use crate::frame::FrameData;
use crate::id::{AnimationId, AuxiliaryId};
use crate::led::LED;
use crate::pipeline::binding::{
    auxiliary_keys, binding_views, spec_bindings, AuxiliaryBinding, BindingView,
};
use crate::pipeline::entry::{EntryView, PipelineAuxiliary, PipelineEntry};
use crate::pipeline::PipelineContext;
use crate::table::Table;
use crate::world::flat_positions;
use vstd::prelude::*;

verus! {

/// The current value of an auxiliary, laid out for its resident buffer.
#[derive(Debug)]
pub struct AuxiliaryUpload {
    pub auxiliary: AuxiliaryId,
    pub bytes: Vec<u8>,
}

/// One shader's work in a frame. The device zeroes the shader's result
/// buffer over `result_size` bytes, copies `positions` into its positions
/// buffer, binds frame and positions as group 0, results as group 1 and
/// `bindings` as group 2, dispatches `work_group_count` by 1 by 1
/// workgroups, and copies the results to the read-back buffer.
#[derive(Debug)]
pub struct ShaderRun {
    pub animation: AnimationId,
    /// The coordinates of every LED of the target, three per LED.
    pub positions: Vec<u32>,
    /// What each auxiliary slot is bound to, by slot.
    pub bindings: Vec<AuxiliaryBinding>,
    pub num_leds: u32,
    pub result_size: u64,
    pub work_group_count: u32,
}

/// A shader's work, apart from how it is stored.
#[verifier::ext_equal]
pub struct ShaderRunView {
    pub animation: Seq<char>,
    pub positions: Seq<u32>,
    pub bindings: Seq<BindingView>,
    pub num_leds: u32,
    pub result_size: u64,
    pub work_group_count: u32,
}

impl View for ShaderRun {
    type V = ShaderRunView;

    open spec fn view(&self) -> ShaderRunView {
        ShaderRunView {
            animation: self.animation@,
            positions: self.positions@,
            bindings: binding_views(self.bindings@),
            num_leds: self.num_leds,
            result_size: self.result_size,
            work_group_count: self.work_group_count,
        }
    }
}

/// One thing the device does for a shader in a frame.
#[derive(Debug, Clone, Copy, PartialEq, Eq, Structural)]
pub enum RunStep {
    /// Copy `size` bytes of zeros over the result buffer.
    ZeroResults { size: u64 },
    /// Copy the positions, `size` bytes of them, into the positions buffer.
    WritePositions { size: u64 },
    /// Bind frame and positions as group 0, results as group 1 and the
    /// auxiliaries as group 2, and dispatch `x` by `y` by `z` workgroups.
    Dispatch { x: u32, y: u32, z: u32 },
    /// Copy `size` bytes of results into the read-back buffer.
    CopyToStaging { size: u64 },
}

impl ShaderRunView {
    /// What the device does for the shader, in order: the results are
    /// zeroed, the positions are written, the shader is dispatched over its
    /// workgroups in one row, and the results are copied out.
    pub open spec fn steps(self) -> Seq<RunStep> {
        seq![
            RunStep::ZeroResults { size: self.result_size },
            RunStep::WritePositions { size: (4 * self.positions.len()) as u64 },
            RunStep::Dispatch { x: self.work_group_count, y: 1, z: 1 },
            RunStep::CopyToStaging { size: self.result_size },
        ]
    }
}

impl ShaderRun {
    /// What the device does for the shader, in order. `None` where there
    /// are more positions than a buffer size can count.
    pub fn steps(&self) -> (steps: Option<Vec<RunStep>>)
        ensures
            steps is Some <==> 4 * self@.positions.len() <= u64::MAX,
            steps is Some ==> steps->0@ == self@.steps(),
    {
        let count: u64 = self.positions.len() as u64;
        if count > 0x3fff_ffff_ffff_ffff {
            return None;
        }
        let mut steps: Vec<RunStep> = Vec::new();
        steps.push(RunStep::ZeroResults { size: self.result_size });
        steps.push(RunStep::WritePositions { size: 4 * count });
        steps.push(RunStep::Dispatch { x: self.work_group_count, y: 1, z: 1 });
        steps.push(RunStep::CopyToStaging { size: self.result_size });
        assert(steps@ =~= self@.steps());
        Some(steps)
    }
}

/// Everything the device does for one frame, in order: write `frame` to the
/// frame buffer, write each upload to its auxiliary's buffer, do each
/// shader's work, submit.
#[derive(Debug)]
pub struct FramePlan {
    pub frame: FrameData,
    pub auxiliary_uploads: Vec<AuxiliaryUpload>,
    pub shader_runs: Vec<ShaderRun>,
}

/// The test "the auxiliary has a resident buffer".
pub open spec fn resident_test(buffers: Table<PipelineAuxiliary>) -> spec_fn(Seq<char>) -> bool {
    |k: Seq<char>| buffers.contains(k)
}

/// The test "the snapshot has positions for the shader's target".
pub open spec fn runnable_test(shaders: Table<PipelineEntry>, context: PipelineContext) -> spec_fn(
    Seq<char>,
) -> bool {
    |k: Seq<char>| context.led_positions.contains(shaders.value_of(k)@.target_id)
}

/// The auxiliaries uploaded in a frame: those of the snapshot that have a
/// resident buffer, in snapshot order.
pub open spec fn uploaded_auxiliaries(
    context: PipelineContext,
    buffers: Table<PipelineAuxiliary>,
) -> Seq<Seq<char>> {
    context.auxiliary_data.keys().filter(resident_test(buffers))
}

/// The shaders that run in a frame: those whose target has positions in the
/// snapshot, in table order.
pub open spec fn running_shaders(shaders: Table<PipelineEntry>, context: PipelineContext) -> Seq<
    Seq<char>,
> {
    shaders.keys().filter(runnable_test(shaders, context))
}

/// The auxiliaries mapped to the slots of `animation`, by slot; none where
/// the snapshot maps nothing to it.
pub open spec fn mapped_auxiliaries(context: PipelineContext, animation: Seq<char>) -> Seq<
    Seq<char>,
> {
    if context.animation_auxiliary_data.contains(animation) {
        auxiliary_keys(context.animation_auxiliary_data.value_of(animation)@)
    } else {
        Seq::empty()
    }
}

/// The work of the shader `entry` in a frame on `context`.
pub open spec fn spec_run(
    entry: EntryView,
    context: PipelineContext,
    buffers: Table<PipelineAuxiliary>,
) -> ShaderRunView {
    ShaderRunView {
        animation: entry.id,
        positions: flat_positions(context.led_positions.value_of(entry.target_id)@),
        bindings: spec_bindings(
            entry.auxiliary_types,
            mapped_auxiliaries(context, entry.id),
            buffers,
        ),
        num_leds: entry.num_leds,
        result_size: entry.result_size,
        work_group_count: entry.work_group_count,
    }
}

/// Where the snapshot has one position per LED of the shader's target, the
/// positions written for the shader fill its positions buffer exactly.
pub proof fn lemma_positions_fill_buffer(
    entry: EntryView,
    context: PipelineContext,
    buffers: Table<PipelineAuxiliary>,
)
    requires
        entry.sized(),
        context.led_positions.value_of(entry.target_id)@.len() == entry.num_leds,
    ensures
        4 * spec_run(entry, context, buffers).positions.len() == entry.positions_size,
        spec_run(entry, context, buffers).steps()[1] == (RunStep::WritePositions {
            size: entry.positions_size,
        }),
{
}

impl FramePlan {
    /// The plan is that of a frame `frame` on `context` with the given
    /// resident shaders and buffers: one upload per resident auxiliary of the
    /// snapshot, holding the layout of its current value, and one run per
    /// shader whose target has positions.
    pub open spec fn describes(
        &self,
        frame: FrameData,
        context: PipelineContext,
        shaders: Table<PipelineEntry>,
        buffers: Table<PipelineAuxiliary>,
    ) -> bool {
        &&& self.frame == frame
        &&& self.auxiliary_uploads@.len() == uploaded_auxiliaries(context, buffers).len()
        &&& forall|i: int|
            0 <= i < self.auxiliary_uploads@.len() ==> {
                let upload = #[trigger] self.auxiliary_uploads@[i];
                let key = uploaded_auxiliaries(context, buffers)[i];
                upload.auxiliary@ == key && context.auxiliary_data.value_of(key).data@.laid_out_as(
                    upload.bytes@,
                )
            }
        &&& self.shader_runs@.len() == running_shaders(shaders, context).len()
        &&& forall|i: int|
            0 <= i < self.shader_runs@.len() ==> (#[trigger] self.shader_runs@[i])@ == spec_run(
                shaders.value_of(running_shaders(shaders, context)[i])@,
                context,
                buffers,
            )
    }
}

/// Number of LEDs that `count` channel values make: three per LED, a last
/// LED for one or two values left over.
pub open spec fn led_count_of(count: nat) -> nat {
    ((count + 2) / 3) as nat
}

/// The LEDs that channel values make, three values per LED; channels that
/// a last LED lacks are 0.
pub open spec fn leds_of(values: Seq<u32>) -> Seq<LED> {
    Seq::new(
        led_count_of(values.len()),
        |i: int|
            LED::spec_from_u32(
                values.subrange(
                    3 * i,
                    if 3 * i + 3 <= values.len() {
                        3 * i + 3
                    } else {
                        values.len() as int
                    },
                ),
            ),
    )
}

/// Groups channel values by three into LEDs, each channel clamped to
/// `0..=255`.
pub fn decode_leds(values: &Vec<u32>) -> (leds: Vec<LED>)
    ensures
        leds@ == leds_of(values@),
{
    let mut leds: Vec<LED> = Vec::new();
    let n = values.len();
    let count: usize = n / 3 + if n % 3 == 0 {
        0
    } else {
        1
    };
    assert(count == led_count_of(n as nat));
    let mut i: usize = 0;
    while i < count
        invariant
            n == values@.len(),
            count == led_count_of(n as nat),
            i <= count,
            leds@.len() == i,
            forall|j: int| 0 <= j < i ==> #[trigger] leds@[j] == leds_of(values@)[j],
        decreases count - i,
    {
        let start: usize = 3 * i;
        let end: usize = if n - start >= 3 {
            start + 3
        } else {
            n
        };
        let chunk = vstd::slice::slice_subrange(values.as_slice(), start, end);
        leds.push(LED::from_u32(chunk));
        i += 1;
    }
    assert(leds@ =~= leds_of(values@));
    leds
}

} // verus!
