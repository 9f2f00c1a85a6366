use emblinkenator::animation::factory::AnimationManifest;
use emblinkenator::animation::{Animation, AnimationTargetType};
use emblinkenator::event_loop::{
    next_state, GPUEventLoop, GPUEventLoopQueue, GPUEventLoopState, LoopError, LoopInput,
    LoopOutput,
};
use emblinkenator::frame::FrameData;
use emblinkenator::id::{AnimationId, FixtureId};
use emblinkenator::led::LED;
use emblinkenator::pipeline::{
    EmblinkenatorPipeline, EmblinkenatorPipelineError, EmblinkenatorPipelineState, PipelineContext,
};
use emblinkenator::table::Table;
use emblinkenator::world::Coord;

fn context() -> PipelineContext {
    let mut context = PipelineContext::new();
    context.num_leds.insert("f".to_string(), 2);
    context.led_positions.insert("f".to_string(), vec![Coord::origin(); 2]);
    context.animations.insert(
        "a".to_string(),
        Animation::new(
            AnimationId::new_from("a".to_string()),
            AnimationManifest::new("source".to_string(), None),
            AnimationTargetType::Fixture(FixtureId::new_from("f".to_string())),
        ),
    );
    context
}

fn readback() -> Table<Vec<u32>> {
    let mut readback = Table::new();
    readback.insert("a".to_string(), vec![10u32, 20, 30, 40, 50, 60]);
    readback
}

#[test]
fn stations_follow_each_other() {
    assert_eq!(next_state(GPUEventLoopState::Paused), GPUEventLoopState::Paused);
    assert_eq!(next_state(GPUEventLoopState::BeforeFrame), GPUEventLoopState::Compute);
    assert_eq!(next_state(GPUEventLoopState::Compute), GPUEventLoopState::WaitForGPUIdle);
    assert_eq!(next_state(GPUEventLoopState::WaitForGPUIdle), GPUEventLoopState::ReadDataFromGPU);
    assert_eq!(next_state(GPUEventLoopState::ReadDataFromGPU), GPUEventLoopState::OutputData);
    assert_eq!(next_state(GPUEventLoopState::OutputData), GPUEventLoopState::FrameEnd);
    assert_eq!(next_state(GPUEventLoopState::FrameEnd), GPUEventLoopState::BeforeFrame);
}

#[test]
fn a_new_loop_is_paused_until_started() {
    let mut event_loop = GPUEventLoop::new(EmblinkenatorPipeline::new(64));
    assert_eq!(event_loop.state(), GPUEventLoopState::Paused);
    assert!(matches!(event_loop.step(LoopInput::Nothing), Ok(LoopOutput::Nothing)));
    assert!(matches!(event_loop.step(LoopInput::Context(context())), Ok(LoopOutput::Nothing)));
    assert_eq!(event_loop.state(), GPUEventLoopState::Paused);
    event_loop.start();
    assert_eq!(event_loop.state(), GPUEventLoopState::BeforeFrame);
}

#[test]
fn a_full_cycle_starts_and_ends_with_an_idle_pipeline() {
    let mut event_loop = GPUEventLoop::new(EmblinkenatorPipeline::new(64));
    event_loop.start();
    for frame in 1..=3u32 {
        assert_eq!(event_loop.state(), GPUEventLoopState::BeforeFrame);
        assert_eq!(event_loop.pipeline().state(), EmblinkenatorPipelineState::Idle);
        let reconciled = event_loop.step(LoopInput::Context(context())).unwrap();
        match reconciled {
            LoopOutput::Reconcile(changes) => {
                assert_eq!(changes.added_animations.len(), if frame == 1 { 1 } else { 0 })
            }
            other => panic!("unexpected {:?}", other),
        }
        assert_eq!(event_loop.state(), GPUEventLoopState::Compute);
        let planned = event_loop.step(LoopInput::Frame(FrameData::new(frame, 1000, 25))).unwrap();
        assert!(matches!(planned, LoopOutput::Submit(plan) if plan.frame.frame == frame));
        assert_eq!(event_loop.state(), GPUEventLoopState::WaitForGPUIdle);
        assert_eq!(event_loop.pipeline().state(), EmblinkenatorPipelineState::Computing);
        assert!(matches!(event_loop.step(LoopInput::DeviceIdle), Ok(LoopOutput::Nothing)));
        assert_eq!(event_loop.state(), GPUEventLoopState::ReadDataFromGPU);
        assert!(matches!(
            event_loop.step(LoopInput::Readback(readback())),
            Ok(LoopOutput::Nothing)
        ));
        assert_eq!(event_loop.state(), GPUEventLoopState::OutputData);
        assert_eq!(event_loop.pipeline().state(), EmblinkenatorPipelineState::Idle);
        match event_loop.step(LoopInput::Nothing).unwrap() {
            LoopOutput::Emit(output) => assert_eq!(
                output.states.get(&"a".to_string()),
                Some(&vec![LED { r: 10, g: 20, b: 30 }, LED { r: 40, g: 50, b: 60 }])
            ),
            other => panic!("unexpected {:?}", other),
        }
        assert_eq!(event_loop.state(), GPUEventLoopState::FrameEnd);
        assert!(matches!(event_loop.step(LoopInput::Nothing), Ok(LoopOutput::Nothing)));
        assert_eq!(event_loop.pipeline().state(), EmblinkenatorPipelineState::Idle);
    }
    assert_eq!(event_loop.state(), GPUEventLoopState::BeforeFrame);
}

#[test]
fn a_station_takes_only_what_it_needs() {
    let mut event_loop = GPUEventLoop::new(EmblinkenatorPipeline::new(64));
    event_loop.start();
    assert!(matches!(
        event_loop.step(LoopInput::Frame(FrameData::new(1, 1000, 25))),
        Err(LoopError::UnexpectedInput)
    ));
    assert!(matches!(event_loop.step(LoopInput::Nothing), Err(LoopError::UnexpectedInput)));
    assert_eq!(event_loop.state(), GPUEventLoopState::BeforeFrame);
    event_loop.step(LoopInput::Context(context())).unwrap();
    assert!(matches!(
        event_loop.step(LoopInput::Context(context())),
        Err(LoopError::UnexpectedInput)
    ));
    assert!(matches!(event_loop.step(LoopInput::DeviceIdle), Err(LoopError::UnexpectedInput)));
    assert_eq!(event_loop.state(), GPUEventLoopState::Compute);
}

#[test]
fn a_refusal_by_the_pipeline_keeps_the_station() {
    let mut event_loop = GPUEventLoop::new(EmblinkenatorPipeline::new(64));
    event_loop.start();
    let mut unresolved = context();
    unresolved.animations.insert(
        "b".to_string(),
        Animation::new(
            AnimationId::new_from("b".to_string()),
            AnimationManifest::new("source".to_string(), None),
            AnimationTargetType::Fixture(FixtureId::new_from("nowhere".to_string())),
        ),
    );
    assert!(matches!(
        event_loop.step(LoopInput::Context(unresolved)),
        Err(LoopError::Pipeline(EmblinkenatorPipelineError::TargetDoesNotExist(_, _)))
    ));
    assert_eq!(event_loop.state(), GPUEventLoopState::BeforeFrame);
    event_loop.step(LoopInput::Context(context())).unwrap();
    event_loop.step(LoopInput::Frame(FrameData::new(1, 1000, 25))).unwrap();
    event_loop.step(LoopInput::DeviceIdle).unwrap();
    assert!(matches!(
        event_loop.step(LoopInput::Readback(Table::new())),
        Err(LoopError::Pipeline(EmblinkenatorPipelineError::ReadFailed(_)))
    ));
    assert_eq!(event_loop.state(), GPUEventLoopState::ReadDataFromGPU);
}

#[test]
fn exit_is_the_only_command() {
    let mut event_loop = GPUEventLoop::new(EmblinkenatorPipeline::new(64));
    assert!(!event_loop.should_exit());
    event_loop.command(GPUEventLoopQueue::Exit);
    assert!(event_loop.should_exit());
}
