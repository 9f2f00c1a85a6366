//! What the pipeline records of each resident shader and auxiliary.

use crate::animation::{Animation, AnimationView};
use crate::auxiliary_data::AuxiliaryDataTypeConsumer;
use crate::frame::FrameData;
use crate::id::AnimationId;
use crate::pipeline::compute_device::{
    create_positions_buffer_dest, create_staging_buffer, create_storage_buffer, min_binding,
    positions_size, result_size, spec_min_binding, spec_positions_size, spec_result_size,
    spec_work_group_count, work_group_count, BindingLayout, BufferRequest,
};
use vstd::prelude::*;

verus! {

/// The record of a resident shader: what it runs on and how large its
/// buffers and its dispatch are.
#[derive(Debug)]
pub struct PipelineEntry {
    id: AnimationId,
    target_id: String,
    shader: String,
    auxiliary_types: Vec<AuxiliaryDataTypeConsumer>,
    num_leds: u32,
    result_size: u64,
    positions_size: u64,
    work_group_count: u32,
}

/// A shader record, apart from how it is stored.
#[verifier::ext_equal]
pub struct EntryView {
    pub id: Seq<char>,
    pub target_id: Seq<char>,
    pub shader: Seq<char>,
    pub auxiliary_types: Seq<AuxiliaryDataTypeConsumer>,
    pub num_leds: u32,
    pub result_size: u64,
    pub positions_size: u64,
    pub work_group_count: u32,
}

impl View for PipelineEntry {
    type V = EntryView;

    closed spec fn view(&self) -> EntryView {
        EntryView {
            id: self.id@,
            target_id: self.target_id@,
            shader: self.shader@,
            auxiliary_types: self.auxiliary_types@,
            num_leds: self.num_leds,
            result_size: self.result_size,
            positions_size: self.positions_size,
            work_group_count: self.work_group_count,
        }
    }
}

/// The record of the shader registered as `id` for `animation`, whose target
/// has `num_leds` LEDs, on a device that takes `leds_per_compute_group` LEDs
/// per workgroup.
pub open spec fn spec_entry(
    id: Seq<char>,
    animation: AnimationView,
    num_leds: u32,
    leds_per_compute_group: u32,
) -> EntryView {
    EntryView {
        id,
        target_id: animation.target.key(),
        shader: animation.shader,
        auxiliary_types: animation.auxiliary_types(),
        num_leds,
        result_size: spec_result_size(num_leds),
        positions_size: spec_positions_size(num_leds),
        work_group_count: spec_work_group_count(num_leds, leds_per_compute_group),
    }
}

impl EntryView {
    /// The sizes are those of the number of LEDs: results and positions
    /// take three scalars of four bytes per LED.
    pub open spec fn sized(self) -> bool {
        &&& self.result_size == spec_result_size(self.num_leds)
        &&& self.positions_size == spec_positions_size(self.num_leds)
    }

    /// Layout of bind group 0: the frame at binding 0 and the positions at
    /// binding 1, both read-only.
    pub open spec fn frame_and_positions_layout(self) -> Seq<BindingLayout> {
        seq![
            BindingLayout {
                binding: 0,
                read_only: true,
                min_binding_size: Some((FrameData::spec_num_fields() * 4) as u64),
            },
            BindingLayout {
                binding: 1,
                read_only: true,
                min_binding_size: spec_min_binding(self.positions_size),
            },
        ]
    }

    /// Layout of bind group 1: the results at binding 0, read and written.
    pub open spec fn result_layout(self) -> Seq<BindingLayout> {
        seq![
            BindingLayout {
                binding: 0,
                read_only: false,
                min_binding_size: spec_min_binding(self.result_size),
            },
        ]
    }

    /// Layout of bind group 2: one read-only binding per declared auxiliary
    /// slot, slot `i` at binding `i`.
    pub open spec fn auxiliary_layout(self) -> Seq<BindingLayout> {
        Seq::new(
            self.auxiliary_types.len(),
            |i: int| BindingLayout { binding: i as u32, read_only: true, min_binding_size: None },
        )
    }

    /// The buffers of the shader: results, read-back of the results, and
    /// positions.
    pub open spec fn buffers(self) -> Seq<BufferRequest> {
        seq![
            BufferRequest {
                kind: crate::pipeline::compute_device::BufferKind::Storage,
                size: self.result_size,
                usage: crate::pipeline::compute_device::storage_usage(),
            },
            BufferRequest {
                kind: crate::pipeline::compute_device::BufferKind::Staging,
                size: self.result_size,
                usage: crate::pipeline::compute_device::staging_usage(),
            },
            BufferRequest {
                kind: crate::pipeline::compute_device::BufferKind::Positions,
                size: spec_positions_size(self.num_leds),
                usage: crate::pipeline::compute_device::dest_usage(),
            },
        ]
    }
}

impl PipelineEntry {
    /// The record of the shader registered as `id` for `animation`.
    pub fn new(id: AnimationId, animation: &Animation, num_leds: u32, leds_per_compute_group: u32) -> (entry:
        PipelineEntry)
        ensures
            entry@ == spec_entry(id@, animation@, num_leds, leds_per_compute_group),
    {
        PipelineEntry {
            id,
            target_id: animation.get_target_type().target_id(),
            shader: animation.get_shader_str(),
            auxiliary_types: animation.auxiliary_types(),
            num_leds,
            result_size: result_size(num_leds),
            positions_size: positions_size(num_leds),
            work_group_count: work_group_count(num_leds, leds_per_compute_group),
        }
    }

    /// The animation the shader belongs to.
    pub fn id(&self) -> (id: &AnimationId)
        ensures
            id@ == self@.id,
    {
        &self.id
    }

    /// The text of the target's identifier.
    pub fn target_id(&self) -> (text: &String)
        ensures
            text@ == self@.target_id,
    {
        &self.target_id
    }

    /// The shader source text.
    pub fn shader(&self) -> (text: &String)
        ensures
            text@ == self@.shader,
    {
        &self.shader
    }

    /// The declared shapes of the auxiliary slots, in slot order.
    pub fn auxiliary_types(&self) -> (list: &Vec<AuxiliaryDataTypeConsumer>)
        ensures
            list@ == self@.auxiliary_types,
    {
        &self.auxiliary_types
    }

    /// Number of LEDs of the target when the shader was registered.
    pub fn num_leds(&self) -> (n: u32)
        ensures
            n == self@.num_leds,
    {
        self.num_leds
    }

    /// Size in bytes of the results, and so of the result buffer and of the
    /// read-back buffer.
    pub fn result_size(&self) -> (size: u64)
        ensures
            size == self@.result_size,
    {
        self.result_size
    }

    /// Size in bytes of the positions.
    pub fn positions_size(&self) -> (size: u64)
        ensures
            size == self@.positions_size,
    {
        self.positions_size
    }

    /// Number of workgroups dispatched per frame.
    pub fn work_group_count(&self) -> (count: u32)
        ensures
            count == self@.work_group_count,
    {
        self.work_group_count
    }

    /// The buffers to allocate for the shader: results, read-back, positions.
    pub fn buffers(&self) -> (requests: Vec<BufferRequest>)
        ensures
            requests@ == self@.buffers(),
    {
        let mut requests: Vec<BufferRequest> = Vec::new();
        requests.push(create_storage_buffer(self.result_size));
        requests.push(create_staging_buffer(self.result_size));
        requests.push(create_positions_buffer_dest(self.num_leds));
        assert(requests@ =~= self@.buffers());
        requests
    }

    /// Layout of bind group 0: frame and positions.
    pub fn frame_and_positions_layout(&self) -> (layout: Vec<BindingLayout>)
        ensures
            layout@ == self@.frame_and_positions_layout(),
    {
        let mut layout: Vec<BindingLayout> = Vec::new();
        layout.push(
            BindingLayout {
                binding: 0,
                read_only: true,
                min_binding_size: Some((FrameData::num_fields() as u64) * 4),
            },
        );
        layout.push(
            BindingLayout {
                binding: 1,
                read_only: true,
                min_binding_size: min_binding(self.positions_size),
            },
        );
        assert(layout@ =~= self@.frame_and_positions_layout());
        layout
    }

    /// Layout of bind group 1: results.
    pub fn result_layout(&self) -> (layout: Vec<BindingLayout>)
        ensures
            layout@ == self@.result_layout(),
    {
        let mut layout: Vec<BindingLayout> = Vec::new();
        layout.push(
            BindingLayout {
                binding: 0,
                read_only: false,
                min_binding_size: min_binding(self.result_size),
            },
        );
        assert(layout@ =~= self@.result_layout());
        layout
    }

    /// Layout of bind group 2: the auxiliary slots. `None` where the shader
    /// declares more slots than a binding number can count.
    pub fn auxiliary_layout(&self) -> (layout: Option<Vec<BindingLayout>>)
        ensures
            layout is Some <==> self@.auxiliary_types.len() <= u32::MAX,
            layout is Some ==> layout->0@ == self@.auxiliary_layout(),
    {
        let n = self.auxiliary_types.len();
        if n > 0xffff_ffff {
            return None;
        }
        let mut layout: Vec<BindingLayout> = Vec::new();
        let mut i: usize = 0;
        while i < n
            invariant
                n == self.auxiliary_types@.len(),
                n <= 0xffff_ffff,
                i <= n,
                layout@.len() == i,
                forall|j: int|
                    0 <= j < i ==> layout@[j] == (BindingLayout {
                        binding: j as u32,
                        read_only: true,
                        min_binding_size: None,
                    }),
            decreases n - i,
        {
            layout.push(BindingLayout { binding: i as u32, read_only: true, min_binding_size: None });
            i += 1;
        }
        assert(layout@ =~= self@.auxiliary_layout());
        Some(layout)
    }
}

/// The result buffer and the read-back buffer of a shader both have the size
/// of its results, which is three scalars of four bytes per LED.
pub proof fn lemma_result_buffers_match(entry: EntryView)
    requires
        entry.sized(),
    ensures
        entry.result_size == 3 * entry.num_leds * 4,
        entry.buffers()[0].kind == crate::pipeline::compute_device::BufferKind::Storage,
        entry.buffers()[0].size == entry.result_size,
        entry.buffers()[1].kind == crate::pipeline::compute_device::BufferKind::Staging,
        entry.buffers()[1].size == entry.result_size,
{
}

/// The record of a resident auxiliary buffer: the shape of what it holds and
/// its size in bytes.
#[derive(Debug, Clone, Copy, PartialEq, Eq, Structural)]
pub struct PipelineAuxiliary {
    pub aux_type: AuxiliaryDataTypeConsumer,
    pub size: u64,
}

} // verus!
