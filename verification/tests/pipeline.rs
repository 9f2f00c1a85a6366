use emblinkenator::animation::factory::AnimationManifest;
use emblinkenator::animation::{Animation, AnimationTargetType};
use emblinkenator::auxiliary_data::{
    AuxDataF32Vec, AuxDataF32Vec3, AuxiliaryData, AuxiliaryDataType, AuxiliaryDataTypeConsumer,
};
use emblinkenator::frame::FrameData;
use emblinkenator::id::{AnimationId, AuxiliaryId, FixtureId, GroupId};
use emblinkenator::led::LED;
use emblinkenator::pipeline::binding::{resolve_bindings, AuxiliaryBinding, Substitution};
use emblinkenator::pipeline::compute_device::{
    create_auxiliary_data_buffer_dest, create_frame_data_buffer_dest, create_positions_buffer_dest,
    create_staging_buffer, create_storage_buffer, create_upload_buffer, create_zeros_buffer,
    positions_size, result_size, work_group_count, BindingLayout, BufferKind,
};
use emblinkenator::pipeline::entry::PipelineAuxiliary;
use emblinkenator::pipeline::plan::{decode_leds, RunStep};
use emblinkenator::pipeline::reconcile::PipelineChange;
use emblinkenator::pipeline::{
    empty_auxiliary_buffers, EmblinkenatorPipeline, EmblinkenatorPipelineError,
    EmblinkenatorPipelineState, PipelineContext,
};
use emblinkenator::table::Table;
use emblinkenator::world::Coord;

fn aid(text: &str) -> AnimationId {
    AnimationId::new_from(text.to_string())
}

fn xid(text: &str) -> AuxiliaryId {
    AuxiliaryId::new_from(text.to_string())
}

fn animation(id: &str, target: &str, slots: Option<Vec<AuxiliaryDataTypeConsumer>>) -> Animation {
    Animation::new(
        aid(id),
        AnimationManifest::new(format!("shader of {}", id), slots),
        AnimationTargetType::Fixture(FixtureId::new_from(target.to_string())),
    )
}

fn at(x: f32) -> Coord {
    Coord { x: x.to_bits(), y: 0, z: 0 }
}

struct Scene {
    context: PipelineContext,
}

impl Scene {
    fn new() -> Scene {
        Scene { context: PipelineContext::new() }
    }

    fn target(mut self, name: &str, leds: u32) -> Scene {
        self.context.num_leds.insert(name.to_string(), leds);
        self.context
            .led_positions
            .insert(name.to_string(), (0..leds).map(|i| at(i as f32)).collect());
        self
    }

    fn animation(mut self, id: &str, target: &str, slots: Option<Vec<AuxiliaryDataTypeConsumer>>) -> Scene {
        self.context.animations.insert(id.to_string(), animation(id, target, slots));
        self
    }

    fn auxiliary(mut self, id: &str, data: AuxiliaryDataType) -> Scene {
        self.context.auxiliary_data.insert(id.to_string(), AuxiliaryData::of(data));
        self
    }

    fn mapped(mut self, animation: &str, auxiliaries: &[&str]) -> Scene {
        self.context
            .animation_auxiliary_data
            .insert(animation.to_string(), auxiliaries.iter().map(|a| xid(a)).collect());
        self
    }
}

fn vector(len: usize) -> AuxiliaryDataType {
    AuxiliaryDataType::F32Vec(AuxDataF32Vec::try_from((vec![0; len], len)).unwrap())
}

fn cube() -> AuxiliaryDataType {
    let values: Vec<u32> = (0..8).map(|i| (i as f32 / 8.0).to_bits()).collect();
    AuxiliaryDataType::F32Vec3(AuxDataF32Vec3::try_from((values, 2, 2, 2)).unwrap())
}

fn names(ids: &[AnimationId]) -> Vec<String> {
    ids.iter().map(|i| i.unprotect()).collect()
}

fn aux_names(ids: &[AuxiliaryId]) -> Vec<String> {
    ids.iter().map(|i| i.unprotect()).collect()
}

#[test]
fn sizes_are_three_scalars_per_led() {
    assert_eq!(result_size(0), 0);
    assert_eq!(result_size(3), 36);
    assert_eq!(positions_size(3), 36);
    assert_eq!(result_size(u32::MAX), 12 * u32::MAX as u64);
}

#[test]
fn work_groups_cover_every_led() {
    assert_eq!(work_group_count(0, 64), 0);
    assert_eq!(work_group_count(1, 64), 1);
    assert_eq!(work_group_count(64, 64), 1);
    assert_eq!(work_group_count(65, 64), 2);
    assert_eq!(work_group_count(128, 64), 2);
    assert_eq!(work_group_count(129, 64), 3);
    assert_eq!(work_group_count(u32::MAX, 1), u32::MAX);
    assert_eq!(work_group_count(u32::MAX, u32::MAX), 1);
}

#[test]
fn work_groups_of_no_leds() {
    assert_eq!(work_group_count(0, 0), 0);
    assert_eq!(work_group_count(5, 0), u32::MAX);
}

#[test]
fn buffers_have_their_usages() {
    let storage = create_storage_buffer(36);
    assert_eq!(storage.kind, BufferKind::Storage);
    assert_eq!(storage.size, 36);
    assert!(storage.usage.storage && storage.usage.copy_src && storage.usage.copy_dst);
    assert!(!storage.usage.map_read);
    let staging = create_staging_buffer(36);
    assert_eq!(staging.kind, BufferKind::Staging);
    assert_eq!(staging.size, 36);
    assert!(staging.usage.map_read && staging.usage.copy_dst);
    assert!(!staging.usage.storage && !staging.usage.copy_src);
    let positions = create_positions_buffer_dest(3);
    assert_eq!(positions.size, 36);
    assert!(positions.usage.storage && positions.usage.copy_dst && !positions.usage.copy_src);
    assert_eq!(create_frame_data_buffer_dest().size, 20);
    assert_eq!(create_auxiliary_data_buffer_dest(48).size, 48);
    assert_eq!(create_zeros_buffer(3).size, 36);
    let upload = create_upload_buffer(7);
    assert_eq!(upload.size, 7);
    assert!(upload.usage.copy_src && !upload.usage.copy_dst);
}

#[test]
fn a_new_pipeline_is_idle_and_empty() {
    let pipeline = EmblinkenatorPipeline::new(64);
    assert_eq!(pipeline.state(), EmblinkenatorPipelineState::Idle);
    assert_eq!(pipeline.leds_per_compute_group(), 64);
    assert!(pipeline.shader(&aid("a")).is_none());
    assert!(pipeline.auxiliary(&xid("x")).is_none());
}

#[test]
fn stand_in_buffers_exist_for_every_shape() {
    let buffers = empty_auxiliary_buffers();
    assert_eq!(buffers.len(), 6);
    assert_eq!(buffers[0].record.aux_type, AuxiliaryDataTypeConsumer::Empty);
    assert_eq!(buffers[0].contents.len(), 0);
    assert_eq!(buffers[4].record.aux_type, AuxiliaryDataTypeConsumer::F32Vec3);
    assert_eq!(buffers[4].record.size, 16);
    assert_eq!(buffers[4].contents, vec![0u8; 16]);
}

#[test]
fn add_shader_sizes_the_shader_for_its_target() {
    let mut pipeline = EmblinkenatorPipeline::new(64);
    let scene = Scene::new().target("f", 130);
    let slots = vec![AuxiliaryDataTypeConsumer::F32Vec3, AuxiliaryDataTypeConsumer::F32];
    pipeline
        .add_shader(&scene.context, aid("a"), animation("a", "f", Some(slots.clone())))
        .unwrap();
    let entry = pipeline.shader(&aid("a")).unwrap();
    assert_eq!(entry.id(), &aid("a"));
    assert_eq!(entry.target_id(), "f");
    assert_eq!(entry.shader(), "shader of a");
    assert_eq!(entry.num_leds(), 130);
    assert_eq!(entry.result_size(), 3 * 130 * 4);
    assert_eq!(entry.positions_size(), 3 * 130 * 4);
    assert_eq!(entry.work_group_count(), 3);
    assert_eq!(entry.auxiliary_types(), &slots);
    let buffers = entry.buffers();
    assert_eq!(buffers[0], create_storage_buffer(1560));
    assert_eq!(buffers[1], create_staging_buffer(1560));
    assert_eq!(buffers[2], create_positions_buffer_dest(130));
}

#[test]
fn bind_group_layouts_follow_the_binding_layout() {
    let mut pipeline = EmblinkenatorPipeline::new(64);
    let scene = Scene::new().target("f", 3).target("none", 0);
    let slots = vec![AuxiliaryDataTypeConsumer::F32Vec3, AuxiliaryDataTypeConsumer::F32];
    pipeline.add_shader(&scene.context, aid("a"), animation("a", "f", Some(slots))).unwrap();
    pipeline.add_shader(&scene.context, aid("z"), animation("z", "none", None)).unwrap();
    let entry = pipeline.shader(&aid("a")).unwrap();
    assert_eq!(
        entry.frame_and_positions_layout(),
        vec![
            BindingLayout { binding: 0, read_only: true, min_binding_size: Some(20) },
            BindingLayout { binding: 1, read_only: true, min_binding_size: Some(36) },
        ]
    );
    assert_eq!(
        entry.result_layout(),
        vec![BindingLayout { binding: 0, read_only: false, min_binding_size: Some(36) }]
    );
    assert_eq!(
        entry.auxiliary_layout().unwrap(),
        vec![
            BindingLayout { binding: 0, read_only: true, min_binding_size: None },
            BindingLayout { binding: 1, read_only: true, min_binding_size: None },
        ]
    );
    let empty = pipeline.shader(&aid("z")).unwrap();
    assert_eq!(empty.result_layout()[0].min_binding_size, None);
    assert_eq!(empty.frame_and_positions_layout()[1].min_binding_size, None);
    assert!(empty.auxiliary_layout().unwrap().is_empty());
}

#[test]
fn add_shader_needs_the_target() {
    let mut pipeline = EmblinkenatorPipeline::new(64);
    let scene = Scene::new().target("f", 3);
    let result = pipeline.add_shader(&scene.context, aid("a"), animation("a", "missing", None));
    match result {
        Err(EmblinkenatorPipelineError::TargetDoesNotExist(id, target)) => {
            assert_eq!(id, aid("a"));
            assert_eq!(
                target,
                AnimationTargetType::Fixture(FixtureId::new_from("missing".to_string()))
            );
        }
        other => panic!("unexpected {:?}", other),
    }
    assert!(pipeline.shader(&aid("a")).is_none());
}

#[test]
fn add_shader_needs_an_idle_pipeline() {
    let mut pipeline = EmblinkenatorPipeline::new(64);
    pipeline.before_frame(Scene::new().target("f", 3).context).unwrap();
    pipeline.compute_frame(&FrameData::new(1, 1000, 25)).unwrap();
    let scene = Scene::new().target("f", 3);
    assert!(matches!(
        pipeline.add_shader(&scene.context, aid("a"), animation("a", "f", None)),
        Err(EmblinkenatorPipelineError::WrongState(_))
    ));
}

#[test]
fn registering_then_removing_restores_the_shader_table() {
    let mut pipeline = EmblinkenatorPipeline::new(64);
    let scene = Scene::new().target("f", 3).animation("kept", "f", None);
    let changes = pipeline.before_frame(scene.context).unwrap();
    assert_eq!(names(&changes.added_animations), vec!["kept"]);
    let scene = Scene::new().target("f", 3);
    pipeline.add_shader(&scene.context, aid("new"), animation("new", "f", None)).unwrap();
    assert!(pipeline.shader(&aid("new")).is_some());
    pipeline.remove_shader(&aid("new"));
    assert!(pipeline.shader(&aid("new")).is_none());
    assert!(pipeline.shader(&aid("kept")).is_some());
    pipeline.remove_shader(&aid("never there"));
    assert!(pipeline.shader(&aid("kept")).is_some());
}

#[test]
fn auxiliary_buffers_are_sized_by_scalars() {
    let mut pipeline = EmblinkenatorPipeline::new(64);
    pipeline.add_auxiliary(xid("x"), AuxiliaryData::of(vector(5)));
    pipeline.add_auxiliary(xid("s"), AuxiliaryData::of(AuxiliaryDataType::F32(0)));
    pipeline.add_auxiliary(xid("e"), AuxiliaryData::of(AuxiliaryDataType::Empty));
    assert_eq!(
        pipeline.auxiliary(&xid("x")),
        Some(PipelineAuxiliary { aux_type: AuxiliaryDataTypeConsumer::F32Vec, size: 20 })
    );
    assert_eq!(pipeline.auxiliary(&xid("s")).unwrap().size, 4);
    assert_eq!(pipeline.auxiliary(&xid("e")).unwrap().size, 0);
    pipeline.remove_auxiliary(&xid("x"));
    assert!(pipeline.auxiliary(&xid("x")).is_none());
}

#[test]
fn first_snapshot_adds_everything() {
    let mut pipeline = EmblinkenatorPipeline::new(64);
    let scene = Scene::new()
        .target("f", 3)
        .animation("a", "f", None)
        .animation("b", "f", None)
        .auxiliary("x", vector(2));
    let changes = pipeline.before_frame(scene.context).unwrap();
    assert_eq!(names(&changes.added_animations), vec!["a", "b"]);
    assert_eq!(aux_names(&changes.added_auxiliaries), vec!["x"]);
    assert!(changes.removed_animations.is_empty());
    assert!(changes.removed_auxiliaries.is_empty());
    assert!(changes.resized_auxiliaries.is_empty());
    assert!(!changes.is_empty());
    assert!(pipeline.shader(&aid("a")).is_some());
    assert_eq!(pipeline.auxiliary(&xid("x")).unwrap().size, 8);
}

#[test]
fn hot_add() {
    let mut pipeline = EmblinkenatorPipeline::new(64);
    for frame in 1..=3 {
        let changes = pipeline.before_frame(Scene::new().target("f", 3).context).unwrap();
        assert!(changes.is_empty());
        let plan = pipeline.compute_frame(&FrameData::new(frame, 1000, 25)).unwrap();
        assert!(plan.shader_runs.is_empty());
        let output = pipeline.read_led_states(&Table::new()).unwrap();
        assert_eq!(output.states.len(), 0);
    }
    let changes =
        pipeline.before_frame(Scene::new().target("f", 3).animation("a", "f", None).context).unwrap();
    assert_eq!(names(&changes.added_animations), vec!["a"]);
    let plan = pipeline.compute_frame(&FrameData::new(4, 1000, 25)).unwrap();
    assert_eq!(plan.shader_runs.len(), 1);
    assert_eq!(plan.shader_runs[0].animation, aid("a"));
    assert_eq!(plan.frame.frame, 4);
    let mut readback = Table::new();
    readback.insert("a".to_string(), vec![255u32, 0, 0, 255, 0, 0, 255, 0, 0]);
    let output = pipeline.read_led_states(&readback).unwrap();
    assert_eq!(output.states.get(&"a".to_string()), Some(&vec![LED { r: 255, g: 0, b: 0 }; 3]));
}

#[test]
fn snapshots_are_reconciled_by_difference() {
    let mut pipeline = EmblinkenatorPipeline::new(64);
    pipeline
        .before_frame(
            Scene::new()
                .target("f", 3)
                .animation("stays", "f", None)
                .animation("goes", "f", None)
                .auxiliary("same", vector(2))
                .auxiliary("grows", vector(2))
                .auxiliary("leaves", vector(2))
                .context,
        )
        .unwrap();
    let changes = pipeline
        .before_frame(
            Scene::new()
                .target("f", 3)
                .animation("comes", "f", None)
                .animation("stays", "f", None)
                .auxiliary("same", vector(2))
                .auxiliary("grows", vector(4))
                .auxiliary("arrives", vector(1))
                .context,
        )
        .unwrap();
    assert_eq!(names(&changes.removed_animations), vec!["goes"]);
    assert_eq!(names(&changes.added_animations), vec!["comes"]);
    assert_eq!(aux_names(&changes.removed_auxiliaries), vec!["leaves"]);
    assert_eq!(aux_names(&changes.resized_auxiliaries), vec!["grows"]);
    assert_eq!(aux_names(&changes.added_auxiliaries), vec!["arrives"]);
    assert!(pipeline.shader(&aid("goes")).is_none());
    assert!(pipeline.shader(&aid("comes")).is_some());
    assert!(pipeline.shader(&aid("stays")).is_some());
    assert!(pipeline.auxiliary(&xid("leaves")).is_none());
    assert_eq!(pipeline.auxiliary(&xid("same")).unwrap().size, 8);
    assert_eq!(pipeline.auxiliary(&xid("grows")).unwrap().size, 16);
    assert_eq!(pipeline.auxiliary(&xid("arrives")).unwrap().size, 4);
}

#[test]
fn a_resized_auxiliary_gets_a_new_buffer() {
    let mut pipeline = EmblinkenatorPipeline::new(64);
    let slots = Some(vec![AuxiliaryDataTypeConsumer::F32Vec]);
    let scene = |len| {
        Scene::new()
            .target("f", 1)
            .animation("a", "f", slots.clone())
            .auxiliary("x", vector(len))
            .mapped("a", &["x"])
            .context
    };
    pipeline.before_frame(scene(2)).unwrap();
    assert_eq!(pipeline.auxiliary(&xid("x")).unwrap().size, 8);
    let plan = pipeline.compute_frame(&FrameData::new(1, 1000, 25)).unwrap();
    assert_eq!(plan.auxiliary_uploads[0].bytes.len(), 4 + 8);
    let mut readback = Table::new();
    readback.insert("a".to_string(), vec![0u32, 0, 0]);
    pipeline.read_led_states(&readback).unwrap();

    let changes = pipeline.before_frame(scene(6)).unwrap();
    assert_eq!(aux_names(&changes.resized_auxiliaries), vec!["x"]);
    assert!(changes.added_auxiliaries.is_empty());
    assert!(changes.removed_auxiliaries.is_empty());
    assert_eq!(pipeline.auxiliary(&xid("x")).unwrap().size, 24);
    let plan = pipeline.compute_frame(&FrameData::new(2, 1000, 25)).unwrap();
    assert_eq!(plan.auxiliary_uploads[0].bytes.len(), 4 + 24);
    assert!(matches!(&plan.shader_runs[0].bindings[0], AuxiliaryBinding::Live(id) if *id == xid("x")));
}

#[test]
fn before_frame_needs_an_idle_pipeline() {
    let mut pipeline = EmblinkenatorPipeline::new(64);
    pipeline.before_frame(PipelineContext::new()).unwrap();
    pipeline.compute_frame(&FrameData::new(1, 1000, 25)).unwrap();
    assert!(matches!(
        pipeline.before_frame(PipelineContext::new()),
        Err(EmblinkenatorPipelineError::WrongState(_))
    ));
    assert_eq!(pipeline.state(), EmblinkenatorPipelineState::Computing);
}

#[test]
fn a_snapshot_with_an_unresolved_animation_is_refused_whole() {
    let mut pipeline = EmblinkenatorPipeline::new(64);
    let mut scene = Scene::new().target("f", 3).animation("good", "f", None);
    scene.context.animations.insert("bad".to_string(), animation("bad", "nowhere", None));
    let result = pipeline.before_frame(scene.context);
    assert!(matches!(
        result,
        Err(EmblinkenatorPipelineError::TargetDoesNotExist(id, _)) if id == aid("bad")
    ));
    assert!(pipeline.shader(&aid("good")).is_none());
    assert!(matches!(
        pipeline.compute_frame(&FrameData::new(1, 1000, 25)),
        Err(EmblinkenatorPipelineError::NoContext(_))
    ));
    // The next snapshot, with the target, is taken as the first.
    let changes = pipeline
        .before_frame(
            Scene::new()
                .target("f", 3)
                .target("nowhere", 1)
                .animation("good", "f", None)
                .animation("bad", "nowhere", None)
                .context,
        )
        .unwrap();
    assert_eq!(names(&changes.added_animations), vec!["good", "bad"]);
}

#[test]
fn compute_frame_needs_a_snapshot_and_an_idle_pipeline() {
    let mut pipeline = EmblinkenatorPipeline::new(64);
    let frame = FrameData::new(1, 1000, 25);
    assert!(matches!(
        pipeline.compute_frame(&frame),
        Err(EmblinkenatorPipelineError::NoContext(_))
    ));
    assert_eq!(pipeline.state(), EmblinkenatorPipelineState::Idle);
    pipeline.before_frame(PipelineContext::new()).unwrap();
    assert!(pipeline.compute_frame(&frame).is_ok());
    assert_eq!(pipeline.state(), EmblinkenatorPipelineState::Computing);
    assert!(matches!(
        pipeline.compute_frame(&frame),
        Err(EmblinkenatorPipelineError::WrongState(_))
    ));
}

#[test]
fn single_fixture_constant_shader() {
    let mut pipeline = EmblinkenatorPipeline::new(64);
    let mut context = Scene::new().animation("A", "F", None).context;
    context.num_leds.insert("F".to_string(), 3);
    context.led_positions.insert(
        "F".to_string(),
        vec![at(0.0), at(1.0), at(2.0)],
    );
    pipeline.before_frame(context).unwrap();
    let plan = pipeline.compute_frame(&FrameData::new(1, 1000, 25)).unwrap();
    assert_eq!(plan.shader_runs.len(), 1);
    let run = &plan.shader_runs[0];
    assert_eq!(run.num_leds, 3);
    assert_eq!(run.result_size, 36);
    assert_eq!(run.work_group_count, 1);
    let positions: Vec<f32> = run.positions.iter().map(|b| f32::from_bits(*b)).collect();
    assert_eq!(positions, vec![0.0, 0.0, 0.0, 1.0, 0.0, 0.0, 2.0, 0.0, 0.0]);
    assert_eq!(
        run.steps(),
        Some(vec![
            RunStep::ZeroResults { size: 36 },
            RunStep::WritePositions { size: 36 },
            RunStep::Dispatch { x: 1, y: 1, z: 1 },
            RunStep::CopyToStaging { size: 36 },
        ])
    );
    // What a shader writing (1.0, 0.0, 0.0) for every LED reads back as.
    let channels: Vec<u32> =
        [1.0f32, 0.0, 0.0].iter().cycle().take(9).map(|v| (v.clamp(0.0, 1.0) * 255.0) as u32).collect();
    let mut readback = Table::new();
    readback.insert("A".to_string(), channels);
    let output = pipeline.read_led_states(&readback).unwrap();
    assert_eq!(output.states.get(&"A".to_string()), Some(&vec![LED { r: 255, g: 0, b: 0 }; 3]));
    assert_eq!(pipeline.state(), EmblinkenatorPipelineState::Idle);
}

#[test]
fn auxiliary_routing() {
    let mut pipeline = EmblinkenatorPipeline::new(64);
    let scene = Scene::new()
        .target("f", 1)
        .animation("A", "f", Some(vec![AuxiliaryDataTypeConsumer::F32Vec3]))
        .auxiliary("X", cube())
        .mapped("A", &["X"]);
    pipeline.before_frame(scene.context).unwrap();
    assert_eq!(
        pipeline.auxiliary(&xid("X")),
        Some(PipelineAuxiliary { aux_type: AuxiliaryDataTypeConsumer::F32Vec3, size: 32 })
    );
    let plan = pipeline.compute_frame(&FrameData::new(1, 1000, 25)).unwrap();
    assert_eq!(plan.auxiliary_uploads.len(), 1);
    let upload = &plan.auxiliary_uploads[0];
    assert_eq!(upload.auxiliary, xid("X"));
    assert_eq!(&upload.bytes[0..12], &[0, 0, 0, 2, 0, 0, 0, 2, 0, 0, 0, 2]);
    let payload: Vec<f32> = upload.bytes[12..]
        .chunks_exact(4)
        .map(|c| f32::from_ne_bytes([c[0], c[1], c[2], c[3]]))
        .collect();
    assert_eq!(payload[0], 0.0);
    assert_eq!(payload[7], 7.0 / 8.0);
    let run = &plan.shader_runs[0];
    assert_eq!(run.bindings.len(), 1);
    assert!(matches!(&run.bindings[0], AuxiliaryBinding::Live(id) if *id == xid("X")));
}

#[test]
fn missing_auxiliary_substitution() {
    let mut pipeline = EmblinkenatorPipeline::new(64);
    let scene = Scene::new()
        .target("f", 2)
        .animation("A", "f", Some(vec![AuxiliaryDataTypeConsumer::F32Vec3]));
    pipeline.before_frame(scene.context).unwrap();
    let plan = pipeline.compute_frame(&FrameData::new(1, 1000, 25)).unwrap();
    let run = &plan.shader_runs[0];
    assert!(matches!(
        run.bindings[0],
        AuxiliaryBinding::Empty(AuxiliaryDataTypeConsumer::F32Vec3, Substitution::Unmapped)
    ));
    assert_eq!(AuxiliaryDataTypeConsumer::F32Vec3.empty_buffer(), vec![0u8; 16]);
    let mut readback = Table::new();
    readback.insert("A".to_string(), vec![0u32; 6]);
    let output = pipeline.read_led_states(&readback).unwrap();
    assert_eq!(output.states.get(&"A".to_string()), Some(&vec![LED::default(); 2]));
}

#[test]
fn every_slot_is_bound() {
    let mut buffers = Table::new();
    buffers.insert(
        "cube".to_string(),
        PipelineAuxiliary { aux_type: AuxiliaryDataTypeConsumer::F32Vec3, size: 32 },
    );
    buffers.insert(
        "scalar".to_string(),
        PipelineAuxiliary { aux_type: AuxiliaryDataTypeConsumer::F32, size: 4 },
    );
    let required = vec![
        AuxiliaryDataTypeConsumer::F32Vec3,
        AuxiliaryDataTypeConsumer::F32Vec3,
        AuxiliaryDataTypeConsumer::F32,
        AuxiliaryDataTypeConsumer::F32Vec2,
    ];
    let mapped = vec![xid("cube"), xid("scalar"), xid("gone")];
    let bindings = resolve_bindings(&required, &mapped, &buffers);
    assert_eq!(bindings.len(), 4);
    assert!(matches!(&bindings[0], AuxiliaryBinding::Live(id) if *id == xid("cube")));
    assert!(matches!(
        bindings[1],
        AuxiliaryBinding::Empty(AuxiliaryDataTypeConsumer::F32Vec3, Substitution::WrongType)
    ));
    assert!(matches!(
        bindings[2],
        AuxiliaryBinding::Empty(AuxiliaryDataTypeConsumer::F32, Substitution::Missing)
    ));
    assert!(matches!(
        bindings[3],
        AuxiliaryBinding::Empty(AuxiliaryDataTypeConsumer::F32Vec2, Substitution::Unmapped)
    ));
    assert!(resolve_bindings(&Vec::new(), &mapped, &buffers).is_empty());
}

#[test]
fn a_shader_without_positions_sits_the_frame_out() {
    let mut pipeline = EmblinkenatorPipeline::new(64);
    let mut scene = Scene::new().target("f", 2).animation("seen", "f", None);
    scene.context.num_leds.insert("hidden".to_string(), 4);
    scene.context.animations.insert("unseen".to_string(), animation("unseen", "hidden", None));
    pipeline.before_frame(scene.context).unwrap();
    let plan = pipeline.compute_frame(&FrameData::new(1, 1000, 25)).unwrap();
    assert_eq!(plan.shader_runs.len(), 1);
    assert_eq!(plan.shader_runs[0].animation, aid("seen"));
}

#[test]
fn no_leds_means_no_work_and_no_states() {
    let mut pipeline = EmblinkenatorPipeline::new(64);
    pipeline.before_frame(Scene::new().target("f", 0).animation("a", "f", None).context).unwrap();
    let entry = pipeline.shader(&aid("a")).unwrap();
    assert_eq!(entry.work_group_count(), 0);
    assert_eq!(entry.result_size(), 0);
    let plan = pipeline.compute_frame(&FrameData::new(1, 1000, 25)).unwrap();
    assert_eq!(plan.shader_runs[0].work_group_count, 0);
    assert!(plan.shader_runs[0].positions.is_empty());
    let mut readback = Table::new();
    readback.insert("a".to_string(), Vec::new());
    let output = pipeline.read_led_states(&readback).unwrap();
    assert_eq!(output.states.get(&"a".to_string()), Some(&Vec::new()));
}

#[test]
fn a_partial_last_workgroup_still_yields_every_led() {
    let mut pipeline = EmblinkenatorPipeline::new(64);
    pipeline.before_frame(Scene::new().target("f", 70).animation("a", "f", None).context).unwrap();
    assert_eq!(pipeline.shader(&aid("a")).unwrap().work_group_count(), 2);
    pipeline.compute_frame(&FrameData::new(1, 1000, 25)).unwrap();
    let mut readback = Table::new();
    readback.insert("a".to_string(), vec![1u32; 210]);
    let output = pipeline.read_led_states(&readback).unwrap();
    assert_eq!(output.states.get(&"a".to_string()).unwrap().len(), 70);
}

#[test]
fn read_back_must_cover_every_shader() {
    let mut pipeline = EmblinkenatorPipeline::new(64);
    pipeline.before_frame(Scene::new().target("f", 3).animation("a", "f", None).context).unwrap();
    pipeline.compute_frame(&FrameData::new(1, 1000, 25)).unwrap();
    assert!(matches!(
        pipeline.read_led_states(&Table::new()),
        Err(EmblinkenatorPipelineError::ReadFailed(id)) if id == aid("a")
    ));
    let mut short = Table::new();
    short.insert("a".to_string(), vec![0u32; 6]);
    assert!(matches!(
        pipeline.read_led_states(&short),
        Err(EmblinkenatorPipelineError::NotEnoughStates(id, 3, 2)) if id == aid("a")
    ));
    assert_eq!(pipeline.state(), EmblinkenatorPipelineState::Computing);
    let mut long = Table::new();
    long.insert("a".to_string(), vec![0u32; 10]);
    assert!(matches!(
        pipeline.read_led_states(&long),
        Err(EmblinkenatorPipelineError::NotEnoughStates(_, 3, 4))
    ));
}

#[test]
fn channel_values_group_by_three() {
    assert_eq!(decode_leds(&Vec::new()), Vec::<LED>::new());
    assert_eq!(
        decode_leds(&vec![1, 2, 3, 4, 5, 6]),
        vec![LED { r: 1, g: 2, b: 3 }, LED { r: 4, g: 5, b: 6 }]
    );
    assert_eq!(
        decode_leds(&vec![1, 2, 3, 400]),
        vec![LED { r: 1, g: 2, b: 3 }, LED { r: 255, g: 0, b: 0 }]
    );
}

#[test]
fn group_targets_are_keyed_by_their_text() {
    let mut pipeline = EmblinkenatorPipeline::new(64);
    let scene = Scene::new().target("g", 5);
    let on_group = Animation::new(
        aid("a"),
        AnimationManifest::new("s".to_string(), None),
        AnimationTargetType::Group(GroupId::new_from("g".to_string())),
    );
    pipeline.add_shader(&scene.context, aid("a"), on_group).unwrap();
    assert_eq!(pipeline.shader(&aid("a")).unwrap().num_leds(), 5);
}

fn step_names(steps: &[PipelineChange]) -> Vec<String> {
    steps
        .iter()
        .map(|step| match step {
            PipelineChange::AuxiliaryRemoved(id) => format!("free auxiliary {}", id.unprotect()),
            PipelineChange::AuxiliaryAdded(id) => format!("allocate auxiliary {}", id.unprotect()),
            PipelineChange::ShaderRemoved(id) => format!("free shader {}", id.unprotect()),
            PipelineChange::ShaderAdded(id) => format!("build shader {}", id.unprotect()),
            PipelineChange::Flush => "flush".to_string(),
        })
        .collect()
}

#[test]
fn changes_are_carried_out_in_order() {
    let mut pipeline = EmblinkenatorPipeline::new(64);
    let first = pipeline
        .before_frame(
            Scene::new()
                .target("f", 3)
                .animation("goes", "f", None)
                .auxiliary("grows", vector(2))
                .auxiliary("leaves", vector(2))
                .context,
        )
        .unwrap();
    assert_eq!(
        step_names(&first.steps()),
        vec![
            "allocate auxiliary grows",
            "allocate auxiliary leaves",
            "flush",
            "build shader goes",
            "flush"
        ]
    );
    let second = pipeline
        .before_frame(
            Scene::new()
                .target("f", 3)
                .animation("comes", "f", None)
                .auxiliary("grows", vector(4))
                .auxiliary("arrives", vector(1))
                .context,
        )
        .unwrap();
    assert_eq!(
        step_names(&second.steps()),
        vec![
            "free auxiliary leaves",
            "flush",
            "free auxiliary grows",
            "flush",
            "allocate auxiliary arrives",
            "allocate auxiliary grows",
            "flush",
            "free shader goes",
            "build shader comes",
            "flush"
        ]
    );
    let third = pipeline.before_frame(Scene::new().target("f", 3).context).unwrap();
    assert_eq!(
        step_names(&third.steps()),
        vec![
            "free auxiliary grows",
            "free auxiliary arrives",
            "flush",
            "free shader comes"
        ]
    );
    let nothing = pipeline.before_frame(Scene::new().target("f", 3).context).unwrap();
    assert!(nothing.steps().is_empty());
}
