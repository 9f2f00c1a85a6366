//! The frame loop: the order in which one frame is made.
//!
//! A frame goes through the same stations every time: take the snapshot
//! and reconcile the device with it, wait for the tick and plan the frame,
//! wait for the device, read the results back, hand them on, end the
//! frame. The loop decides what happens at each station and which station
//! comes next; whoever drives it waits for what each station needs and
//! carries out what it decides.

use crate::frame::FrameData;
use crate::led::LED;
use crate::pipeline::plan::FramePlan;
use crate::pipeline::reconcile::{additions_resolve, Reconciliation};
use crate::pipeline::{
    readback_complete, ComputeOutput, EmblinkenatorPipeline, EmblinkenatorPipelineError,
    EmblinkenatorPipelineState, PipelineContext,
};
use crate::table::Table;
use vstd::prelude::*;

verus! {

/// The LED states of one frame, by animation, on their way to the frame
/// resolver.
#[derive(Debug)]
pub struct PipelineFrameOutput {
    pub states: Table<Vec<LED>>,
}

/// The stations of the loop.
#[derive(Debug, Clone, Copy, PartialEq, Eq, Structural)]
pub enum GPUEventLoopState {
    Paused,
    BeforeFrame,
    Compute,
    WaitForGPUIdle,
    ReadDataFromGPU,
    OutputData,
    FrameEnd,
}

/// A command to the loop.
#[derive(Debug, Clone, Copy, PartialEq, Eq, Structural)]
pub enum GPUEventLoopQueue {
    Exit,
}

/// What the loop keeps of the frame it is making.
#[derive(Debug)]
pub struct EventLoopFrameState {
    pub last_frame_state: Option<ComputeOutput>,
}

impl EventLoopFrameState {
    /// The state of a frame that has computed nothing yet.
    pub fn new() -> (state: Self)
        ensures
            state.last_frame_state is None,
    {
        EventLoopFrameState { last_frame_state: None }
    }
}

/// The station after `state`. A paused loop stays paused; the end of a
/// frame is followed by the beginning of the next.
pub open spec fn spec_next_state(state: GPUEventLoopState) -> GPUEventLoopState {
    match state {
        GPUEventLoopState::Paused => GPUEventLoopState::Paused,
        GPUEventLoopState::BeforeFrame => GPUEventLoopState::Compute,
        GPUEventLoopState::Compute => GPUEventLoopState::WaitForGPUIdle,
        GPUEventLoopState::WaitForGPUIdle => GPUEventLoopState::ReadDataFromGPU,
        GPUEventLoopState::ReadDataFromGPU => GPUEventLoopState::OutputData,
        GPUEventLoopState::OutputData => GPUEventLoopState::FrameEnd,
        GPUEventLoopState::FrameEnd => GPUEventLoopState::BeforeFrame,
    }
}

/// The station after `state`.
pub fn next_state(state: GPUEventLoopState) -> (next: GPUEventLoopState)
    ensures
        next == spec_next_state(state),
{
    match state {
        GPUEventLoopState::Paused => GPUEventLoopState::Paused,
        GPUEventLoopState::BeforeFrame => GPUEventLoopState::Compute,
        GPUEventLoopState::Compute => GPUEventLoopState::WaitForGPUIdle,
        GPUEventLoopState::WaitForGPUIdle => GPUEventLoopState::ReadDataFromGPU,
        GPUEventLoopState::ReadDataFromGPU => GPUEventLoopState::OutputData,
        GPUEventLoopState::OutputData => GPUEventLoopState::FrameEnd,
        GPUEventLoopState::FrameEnd => GPUEventLoopState::BeforeFrame,
    }
}

/// Whether the device is busy at a station: between planning a frame and
/// reading its results back.
pub open spec fn device_busy_at(state: GPUEventLoopState) -> bool {
    state == GPUEventLoopState::WaitForGPUIdle || state == GPUEventLoopState::ReadDataFromGPU
}

/// Six stations on from the beginning of a frame is the beginning of the
/// next frame, and the device is free at both: a full cycle starts and ends
/// with an idle pipeline.
pub proof fn lemma_full_cycle()
    ensures
        spec_next_state(
            spec_next_state(
                spec_next_state(
                    spec_next_state(
                        spec_next_state(spec_next_state(GPUEventLoopState::BeforeFrame)),
                    ),
                ),
            ),
        ) == GPUEventLoopState::BeforeFrame,
        !device_busy_at(GPUEventLoopState::BeforeFrame),
        !device_busy_at(GPUEventLoopState::FrameEnd),
{
}

/// What the loop is handed at a station.
#[derive(Debug)]
pub enum LoopInput {
    /// The snapshot taken from the aggregator's mailbox, for `BeforeFrame`.
    Context(PipelineContext),
    /// The frame taken from the time-keeper's mailbox, for `Compute`.
    Frame(FrameData),
    /// The device has become idle, for `WaitForGPUIdle`.
    DeviceIdle,
    /// The channel values read back from the device, by animation, for
    /// `ReadDataFromGPU`.
    Readback(Table<Vec<u32>>),
    /// Nothing: `OutputData` and `FrameEnd` need nothing.
    Nothing,
}

/// What the loop decided at a station.
#[derive(Debug)]
pub enum LoopOutput {
    /// Nothing to carry out.
    Nothing,
    /// Bring the device in line with the snapshot.
    Reconcile(Reconciliation),
    /// Encode and submit the frame.
    Submit(FramePlan),
    /// Send the frame's LED states to the frame resolver.
    Emit(PipelineFrameOutput),
}

/// Why a step did nothing.
#[derive(Debug)]
pub enum LoopError {
    /// The loop was handed something that its station has no use for.
    UnexpectedInput,
    /// The pipeline refused.
    Pipeline(EmblinkenatorPipelineError),
}

/// Whether `input` is what `state` needs.
pub open spec fn fits(state: GPUEventLoopState, input: LoopInput) -> bool {
    match state {
        GPUEventLoopState::Paused => true,
        GPUEventLoopState::BeforeFrame => input is Context,
        GPUEventLoopState::Compute => input is Frame,
        GPUEventLoopState::WaitForGPUIdle => input is DeviceIdle,
        GPUEventLoopState::ReadDataFromGPU => input is Readback,
        GPUEventLoopState::OutputData => input is Nothing,
        GPUEventLoopState::FrameEnd => input is Nothing,
    }
}

/// The frame loop.
#[derive(Debug)]
pub struct GPUEventLoop {
    state: GPUEventLoopState,
    command_queue: Vec<GPUEventLoopQueue>,
    pipeline: EmblinkenatorPipeline,
    frame_state: Option<EventLoopFrameState>,
}

impl GPUEventLoop {
    /// The station the loop is at.
    pub closed spec fn spec_state(&self) -> GPUEventLoopState {
        self.state
    }

    /// The pipeline that the loop drives.
    pub closed spec fn spec_pipeline(&self) -> EmblinkenatorPipeline {
        self.pipeline
    }

    /// The commands given to the loop.
    pub closed spec fn commands(&self) -> Seq<GPUEventLoopQueue> {
        self.command_queue@
    }

    /// The LED states that the frame has computed, if it has.
    pub closed spec fn computed(&self) -> Option<ComputeOutput> {
        match self.frame_state {
            Some(frame) => frame.last_frame_state,
            None => None,
        }
    }

    /// The pipeline is well formed, and busy exactly at the stations between
    /// planning a frame and reading it back.
    pub open spec fn wf(&self) -> bool {
        &&& self.spec_pipeline().wf()
        &&& device_busy_at(self.spec_state()) ==> self.spec_pipeline().spec_state()
            == EmblinkenatorPipelineState::Computing
        &&& !device_busy_at(self.spec_state()) ==> self.spec_pipeline().spec_state()
            == EmblinkenatorPipelineState::Idle
    }

    /// A paused loop over `pipeline`, which must be idle.
    pub fn new(pipeline: EmblinkenatorPipeline) -> (event_loop: GPUEventLoop)
        requires
            pipeline.wf(),
            pipeline.spec_state() == EmblinkenatorPipelineState::Idle,
        ensures
            event_loop.wf(),
            event_loop.spec_state() == GPUEventLoopState::Paused,
            event_loop.spec_pipeline() == pipeline,
            event_loop.commands().len() == 0,
            event_loop.computed() is None,
    {
        GPUEventLoop {
            state: GPUEventLoopState::Paused,
            command_queue: Vec::new(),
            pipeline,
            frame_state: None,
        }
    }

    /// The station the loop is at.
    pub fn state(&self) -> (state: GPUEventLoopState)
        ensures
            state == self.spec_state(),
    {
        self.state
    }

    /// The pipeline that the loop drives.
    pub fn pipeline(&self) -> (pipeline: &EmblinkenatorPipeline)
        ensures
            *pipeline == self.spec_pipeline(),
    {
        &self.pipeline
    }

    /// Starts a paused loop at the beginning of a frame; a loop that is not
    /// paused goes on where it is.
    pub fn start(&mut self)
        requires
            old(self).wf(),
        ensures
            final(self).wf(),
            final(self).spec_pipeline() == old(self).spec_pipeline(),
            final(self).commands() == old(self).commands(),
            final(self).spec_state() == if old(self).spec_state() == GPUEventLoopState::Paused {
                GPUEventLoopState::BeforeFrame
            } else {
                old(self).spec_state()
            },
    {
        if self.state == GPUEventLoopState::Paused {
            self.state = GPUEventLoopState::BeforeFrame;
        }
    }

    /// Gives the loop a command.
    pub fn command(&mut self, command: GPUEventLoopQueue)
        requires
            old(self).wf(),
        ensures
            final(self).wf(),
            final(self).spec_state() == old(self).spec_state(),
            final(self).spec_pipeline() == old(self).spec_pipeline(),
            final(self).commands() == old(self).commands().push(command),
    {
        self.command_queue.push(command);
    }

    /// Whether the loop has been told to exit. This is asked between
    /// stations.
    pub fn should_exit(&self) -> (exit: bool)
        ensures
            exit == self.commands().contains(GPUEventLoopQueue::Exit),
    {
        let n = self.command_queue.len();
        let mut i: usize = 0;
        while i < n
            invariant
                n == self.command_queue@.len(),
                i <= n,
                forall|j: int| 0 <= j < i ==> self.command_queue@[j] != GPUEventLoopQueue::Exit,
            decreases n - i,
        {
            if self.command_queue[i] == GPUEventLoopQueue::Exit {
                assert(self.commands()[i as int] == GPUEventLoopQueue::Exit);
                return true;
            }
            i += 1;
        }
        false
    }

    /// Does the work of the station the loop is at and moves on to the next
    /// station. What is handed in has to be what the station needs, and the
    /// pipeline has to accept it; otherwise nothing changes.
    ///
    /// `BeforeFrame` reconciles the pipeline with the snapshot, `Compute`
    /// plans the frame, `ReadDataFromGPU` turns what was read back into LED
    /// states, `OutputData` hands them out. A paused loop stays paused.
    pub fn step(&mut self, input: LoopInput) -> (result: Result<LoopOutput, LoopError>)
        requires
            old(self).wf(),
            input matches LoopInput::Context(context) ==> context.wf(),
            input matches LoopInput::Readback(readback) ==> readback.wf(),
        ensures
            final(self).wf(),
            final(self).commands() == old(self).commands(),
            !fits(old(self).spec_state(), input) ==> (result matches Err(
                LoopError::UnexpectedInput,
            )) && *final(self) == *old(self),
            result is Ok ==> final(self).spec_state() == spec_next_state(old(self).spec_state()),
            result is Err ==> final(self).spec_state() == old(self).spec_state(),
            fits(old(self).spec_state(), input) ==> match old(self).spec_state() {
                GPUEventLoopState::Paused => result matches Ok(LoopOutput::Nothing) && *final(self)
                    == *old(self),
                GPUEventLoopState::BeforeFrame => if additions_resolve(
                    old(self).spec_pipeline().context(),
                    input->Context_0,
                ) {
                    result matches Ok(LoopOutput::Reconcile(changes)) && old(self).spec_pipeline().reconciled(
                        &final(self).spec_pipeline(),
                        input->Context_0,
                        changes,
                    ) && final(self).computed() is None
                } else {
                    (result matches Err(
                        LoopError::Pipeline(EmblinkenatorPipelineError::TargetDoesNotExist(_, _)),
                    )) && *final(self) == *old(self)
                },
                GPUEventLoopState::Compute => if old(self).spec_pipeline().context() is Some {
                    result matches Ok(LoopOutput::Submit(plan)) && old(self).spec_pipeline().planned(&final(self).spec_pipeline(), input->Frame_0, plan)
                        && final(self).computed() == old(self).computed()
                } else {
                    (result matches Err(
                        LoopError::Pipeline(EmblinkenatorPipelineError::NoContext(_)),
                    )) && *final(self) == *old(self)
                },
                GPUEventLoopState::WaitForGPUIdle => result matches Ok(LoopOutput::Nothing)
                    && final(self).spec_pipeline() == old(self).spec_pipeline() && final(self).computed() == old(self).computed(),
                GPUEventLoopState::ReadDataFromGPU => if readback_complete(
                    old(self).spec_pipeline().shaders(),
                    input->Readback_0,
                ) {
                    result matches Ok(LoopOutput::Nothing) && final(self).computed() is Some
                        && old(self).spec_pipeline().results_read(
                        &final(self).spec_pipeline(),
                        input->Readback_0,
                        final(self).computed()->0,
                    )
                } else {
                    result matches Err(LoopError::Pipeline(_)) && *final(self) == *old(self)
                },
                GPUEventLoopState::OutputData => final(self).spec_pipeline() == old(self).spec_pipeline() && final(self).computed() is None && match old(self).computed() {
                    Some(computed) => result matches Ok(LoopOutput::Emit(output)) && output.states
                        == computed.states,
                    None => result matches Ok(LoopOutput::Nothing),
                },
                GPUEventLoopState::FrameEnd => result matches Ok(LoopOutput::Nothing) && final(self).spec_pipeline() == old(self).spec_pipeline() && final(self).computed() == old(self).computed(),
            },
    {
        match self.state {
            GPUEventLoopState::Paused => Ok(LoopOutput::Nothing),
            GPUEventLoopState::BeforeFrame => match input {
                LoopInput::Context(context) => {
                    match self.pipeline.before_frame(context) {
                        Ok(changes) => {
                            self.frame_state = Some(EventLoopFrameState::new());
                            self.state = next_state(self.state);
                            Ok(LoopOutput::Reconcile(changes))
                        },
                        Err(e) => Err(LoopError::Pipeline(e)),
                    }
                },
                _ => Err(LoopError::UnexpectedInput),
            },
            GPUEventLoopState::Compute => match input {
                LoopInput::Frame(frame) => {
                    match self.pipeline.compute_frame(&frame) {
                        Ok(plan) => {
                            self.state = next_state(self.state);
                            Ok(LoopOutput::Submit(plan))
                        },
                        Err(e) => Err(LoopError::Pipeline(e)),
                    }
                },
                _ => Err(LoopError::UnexpectedInput),
            },
            GPUEventLoopState::WaitForGPUIdle => match input {
                LoopInput::DeviceIdle => {
                    self.state = next_state(self.state);
                    Ok(LoopOutput::Nothing)
                },
                _ => Err(LoopError::UnexpectedInput),
            },
            GPUEventLoopState::ReadDataFromGPU => match input {
                LoopInput::Readback(readback) => {
                    match self.pipeline.read_led_states(&readback) {
                        Ok(output) => {
                            self.frame_state = Some(
                                EventLoopFrameState { last_frame_state: Some(output) },
                            );
                            self.state = next_state(self.state);
                            Ok(LoopOutput::Nothing)
                        },
                        Err(e) => Err(LoopError::Pipeline(e)),
                    }
                },
                _ => Err(LoopError::UnexpectedInput),
            },
            GPUEventLoopState::OutputData => match input {
                LoopInput::Nothing => {
                    let mut taken: Option<EventLoopFrameState> = None;
                    core::mem::swap(&mut taken, &mut self.frame_state);
                    self.state = next_state(self.state);
                    match taken {
                        Some(EventLoopFrameState { last_frame_state: Some(output) }) => Ok(
                            LoopOutput::Emit(PipelineFrameOutput { states: output.states }),
                        ),
                        _ => Ok(LoopOutput::Nothing),
                    }
                },
                _ => Err(LoopError::UnexpectedInput),
            },
            GPUEventLoopState::FrameEnd => match input {
                LoopInput::Nothing => {
                    self.state = next_state(self.state);
                    Ok(LoopOutput::Nothing)
                },
                _ => Err(LoopError::UnexpectedInput),
            },
        }
    }
}

} // verus!
