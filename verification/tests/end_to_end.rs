use emblinkenator::animation::factory::AnimationRegistry;
use emblinkenator::animation::manager::AnimationManager;
use emblinkenator::animation::AnimationTargetType;
use emblinkenator::auxiliary_data::manager::AuxiliaryDataManager;
use emblinkenator::devices::manager::{DeviceKind, DeviceManager, DeviceManagerEvent};
use emblinkenator::event_loop::{GPUEventLoop, GPUEventLoopState, LoopInput, LoopOutput};
use emblinkenator::frame::FrameTimeKeeper;
use emblinkenator::frame_resolver::{FrameResolver, Route};
use emblinkenator::id::{AnimationId, DeviceId, FixtureId};
use emblinkenator::led::LED;
use emblinkenator::pipeline::plan::FramePlan;
use emblinkenator::pipeline::EmblinkenatorPipeline;
use emblinkenator::state::tick;
use emblinkenator::table::Table;
use emblinkenator::world::context::WorldContext;
use emblinkenator::world::fixture::{Fixture, FixtureProps};
use emblinkenator::world::Coord;

struct Engine {
    world: WorldContext,
    animations: AnimationManager,
    auxiliaries: AuxiliaryDataManager,
    devices: DeviceManager,
    keeper: FrameTimeKeeper,
    resolver: FrameResolver,
    event_loop: GPUEventLoop,
}

fn engine() -> Engine {
    let mut registry = AnimationRegistry::new();
    registry.register("red".to_string(), "all red".to_string(), None).unwrap();
    let mut world = WorldContext::empty();
    let positions = (0..3)
        .map(|i| Coord { x: (i as f32).to_bits(), y: 0f32.to_bits(), z: 0f32.to_bits() })
        .collect();
    world
        .add_fixture(Fixture::new(
            FixtureId::new_from("F".to_string()),
            FixtureProps { num_leds: 3, led_positions: positions },
        ))
        .unwrap();
    let mut resolver = FrameResolver::new();
    let mut devices = DeviceManager::new();
    let strip = DeviceId::new_from("strip".to_string());
    match devices.add_device(strip.clone(), DeviceKind::LEDDataOutput).unwrap() {
        DeviceManagerEvent::DeviceAdded(id) => {
            assert!(resolver.on_device_added(id, DeviceKind::LEDDataOutput))
        }
        other => panic!("unexpected {:?}", other),
    }
    resolver.set_fixture_to_device(FixtureId::new_from("F".to_string()), strip);
    let mut event_loop = GPUEventLoop::new(EmblinkenatorPipeline::new(64));
    event_loop.start();
    Engine {
        world,
        animations: AnimationManager::new(registry),
        auxiliaries: AuxiliaryDataManager::new(),
        devices,
        keeper: FrameTimeKeeper::new(1000, 25, 10),
        resolver,
        event_loop,
    }
}

/// What a shader that writes `(1.0, 0.0, 0.0)` for every LED reads back as.
fn all_red(plan: &FramePlan) -> Table<Vec<u32>> {
    let mut readback = Table::new();
    for run in plan.shader_runs.iter() {
        let channels: Vec<u32> = (0..run.num_leds)
            .flat_map(|_| [1.0f32, 0.0, 0.0])
            .map(|v| u32::from((v.clamp(0.0, 1.0) * 255.0) as u8))
            .collect();
        readback.insert(run.animation.unprotect(), channels);
    }
    readback
}

/// One frame through every station; what is sent to the devices.
fn frame(engine: &mut Engine) -> Vec<(String, String, Vec<LED>)> {
    let state = engine.world.get_world_context_state();
    let mut snapshots = tick(
        &state,
        &engine.animations.get_animation_states(),
        &engine.auxiliaries.get_auxiliary_data(),
        &engine.auxiliaries.get_animation_auxiliary_ids(),
        &vec![false],
    );
    let snapshot = snapshots.pop().unwrap().unwrap();
    assert_eq!(engine.event_loop.state(), GPUEventLoopState::BeforeFrame);
    engine.event_loop.step(LoopInput::Context(snapshot)).unwrap();
    let tick = engine.keeper.tick(40).unwrap();
    let plan = match engine.event_loop.step(LoopInput::Frame(tick.frame_data)).unwrap() {
        LoopOutput::Submit(plan) => plan,
        other => panic!("unexpected {:?}", other),
    };
    engine.event_loop.step(LoopInput::DeviceIdle).unwrap();
    engine.event_loop.step(LoopInput::Readback(all_red(&plan))).unwrap();
    let output = match engine.event_loop.step(LoopInput::Nothing).unwrap() {
        LoopOutput::Emit(output) => output,
        other => panic!("unexpected {:?}", other),
    };
    engine.event_loop.step(LoopInput::Nothing).unwrap();
    engine
        .resolver
        .resolve(&engine.animations, &engine.world, &output)
        .into_iter()
        .map(|delivery| {
            let device = match delivery.route {
                Route::Device(id) => id.unprotect(),
                Route::Unmapped => "nowhere".to_string(),
                Route::NoBuffer(id) => format!("no buffer of {}", id.unprotect()),
            };
            (delivery.fixture.unprotect(), device, delivery.frame)
        })
        .collect()
}

#[test]
fn a_constant_shader_on_one_fixture_reaches_the_device() {
    let mut engine = engine();
    engine
        .animations
        .create_animation(
            AnimationId::new_from("A".to_string()),
            "red".to_string(),
            AnimationTargetType::Fixture(FixtureId::new_from("F".to_string())),
        )
        .unwrap();
    for _ in 0..3 {
        assert_eq!(
            frame(&mut engine),
            vec![("F".to_string(), "strip".to_string(), vec![LED { r: 255, g: 0, b: 0 }; 3])]
        );
    }
    assert_eq!(engine.devices.get_device(&DeviceId::new_from("strip".to_string())), Some(DeviceKind::LEDDataOutput));
}

#[test]
fn an_animation_added_while_running_shows_from_the_next_frame() {
    let mut engine = engine();
    for _ in 0..3 {
        assert!(frame(&mut engine).is_empty());
    }
    engine
        .animations
        .create_animation(
            AnimationId::new_from("A".to_string()),
            "red".to_string(),
            AnimationTargetType::Fixture(FixtureId::new_from("F".to_string())),
        )
        .unwrap();
    assert_eq!(frame(&mut engine).len(), 1);
    engine.animations.destroy_animation(&AnimationId::new_from("A".to_string()));
    assert!(frame(&mut engine).is_empty());
}

#[test]
fn a_fixture_removed_while_running_gets_nothing_more() {
    let mut engine = engine();
    engine
        .animations
        .create_animation(
            AnimationId::new_from("A".to_string()),
            "red".to_string(),
            AnimationTargetType::Fixture(FixtureId::new_from("F".to_string())),
        )
        .unwrap();
    assert_eq!(frame(&mut engine).len(), 1);
    engine.world.remove_fixture(&FixtureId::new_from("F".to_string())).unwrap();
    // The aggregator leaves the animation out, so the pipeline drops its
    // shader, and nothing is sent.
    assert!(frame(&mut engine).is_empty());
    assert!(engine
        .event_loop
        .pipeline()
        .shader(&AnimationId::new_from("A".to_string()))
        .is_none());
}
