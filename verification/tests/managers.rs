use emblinkenator::animation::factory::{
    get_animation_registry, AnimationRegistry, AnimationRegistryRegisterError, LoadedShader,
    ShaderManifest,
};
use emblinkenator::animation::manager::{AnimationManager, AnimationManagerError};
use emblinkenator::animation::{AnimationTargetType, ShadersConfig};
use emblinkenator::auxiliary_data::manager::{
    AddAuxiliaryError, AuxiliaryConfigParams, AuxiliaryDataManager, AuxiliaryOutcome,
    AuxiliaryReceive,
};
use emblinkenator::auxiliary_data::{
    AuxDataF32Vec, AuxiliaryDataType, AuxiliaryDataTypeConsumer,
};
use emblinkenator::config::{EmblinkenatorConfig, StartupAuxiliaries};
use emblinkenator::devices::auxiliary_data::noise::{NoiseAuxiliaryConfig, NoiseAuxiliaryDataDevice};
use emblinkenator::devices::auxiliary_data::AuxDeviceData;
use emblinkenator::devices::led_output::mqtt::MQTTSenderConfig;
use emblinkenator::devices::led_output::udp::UDPSenderConfig;
use emblinkenator::devices::manager::{
    AuxiliaryDataConfigType, DeviceConfigType, DeviceKind, DeviceManager,
    DeviceManagerErrorAddDevice, DeviceManagerErrorGetDevice, DeviceManagerEvent,
    LEDOutputConfigType,
};
use emblinkenator::frame::FrameData;
use emblinkenator::id::{AnimationId, AuxiliaryId, DeviceId, FixtureId, GroupId, InstallationId};
use emblinkenator::opqueue::Opqueue;

fn aid(text: &str) -> AnimationId {
    AnimationId::new_from(text.to_string())
}

fn xid(text: &str) -> AuxiliaryId {
    AuxiliaryId::new_from(text.to_string())
}

fn did(text: &str) -> DeviceId {
    DeviceId::new_from(text.to_string())
}

fn on_fixture(text: &str) -> AnimationTargetType {
    AnimationTargetType::Fixture(FixtureId::new_from(text.to_string()))
}

#[test]
fn identifiers_are_their_text() {
    let id = FixtureId::new_from("strip-1".to_string());
    assert_eq!(id.unprotect(), "strip-1");
    assert_eq!(id.key(), "strip-1");
    assert!(id.same(&FixtureId::new_from("strip-1".to_string())));
    assert!(!id.same(&FixtureId::new_from("strip-2".to_string())));
    assert_eq!(id.clone(), id);
    assert_eq!(GroupId::new_from("g".to_string()).unprotect(), "g");
    assert_eq!(InstallationId::new_from("i".to_string()).unprotect(), "i");
}

#[test]
fn targets_are_keyed_by_the_text_of_their_identifier() {
    assert_eq!(on_fixture("f").target_id(), "f");
    assert_eq!(AnimationTargetType::Group(GroupId::new_from("g".to_string())).target_id(), "g");
    assert_eq!(
        AnimationTargetType::Installation(InstallationId::new_from("i".to_string())).target_id(),
        "i"
    );
}

#[test]
fn the_registry_is_append_only() {
    let mut registry = AnimationRegistry::new();
    assert!(registry.get(&"rainbow".to_string()).is_none());
    let slots = Some(vec![AuxiliaryDataTypeConsumer::F32]);
    assert!(registry.register("rainbow".to_string(), "first".to_string(), slots.clone()).is_ok());
    assert_eq!(
        registry.register("rainbow".to_string(), "second".to_string(), None),
        Err(AnimationRegistryRegisterError::AnimationExistsWithId)
    );
    let manifest = registry.get(&"rainbow".to_string()).unwrap();
    assert_eq!(manifest.shader, "first");
    assert_eq!(manifest.auxiliaries, slots);
}

#[test]
fn the_registry_takes_the_first_shader_of_each_identifier() {
    let loaded = |id: &str, source: &str| LoadedShader {
        manifest: ShaderManifest {
            id: id.to_string(),
            shader: format!("{}.wgsl", id),
            auxiliaries: None,
        },
        source: source.to_string(),
    };
    let registry = get_animation_registry(vec![
        loaded("a", "first a"),
        loaded("b", "only b"),
        loaded("a", "second a"),
    ]);
    assert_eq!(registry.get(&"a".to_string()).unwrap().shader, "first a");
    assert_eq!(registry.get(&"b".to_string()).unwrap().shader, "only b");
    assert!(registry.get(&"c".to_string()).is_none());
}

#[test]
fn animations_are_made_of_registered_shaders() {
    let mut registry = AnimationRegistry::new();
    registry
        .register(
            "rainbow".to_string(),
            "source".to_string(),
            Some(vec![AuxiliaryDataTypeConsumer::F32Vec3]),
        )
        .unwrap();
    let mut manager = AnimationManager::new(registry);
    assert_eq!(
        manager.create_animation(aid("a"), "missing".to_string(), on_fixture("f")),
        Err(AnimationManagerError::AnimationIsNotRegistered)
    );
    assert_eq!(
        manager.create_animation(aid("a"), "rainbow".to_string(), on_fixture("f")),
        Ok(aid("a"))
    );
    assert_eq!(
        manager.create_animation(aid("a"), "rainbow".to_string(), on_fixture("g")),
        Err(AnimationManagerError::AnimationExistsWithId)
    );
    let animation = manager.get_animation(&aid("a")).unwrap();
    assert_eq!(animation.id(), aid("a"));
    assert_eq!(animation.get_shader_str(), "source");
    assert_eq!(animation.get_target_type(), on_fixture("f"));
    assert_eq!(animation.get_auxiliaries(), Some(vec![AuxiliaryDataTypeConsumer::F32Vec3]));
    assert_eq!(animation.auxiliary_types(), vec![AuxiliaryDataTypeConsumer::F32Vec3]);
    assert_eq!(manager.get_animation_states().len(), 1);
    manager.destroy_animation(&aid("a"));
    assert!(manager.get_animation(&aid("a")).is_none());
    assert_eq!(manager.get_animation_states().len(), 0);
}

#[test]
fn auxiliaries_start_with_their_default() {
    let mut manager = AuxiliaryDataManager::new();
    manager
        .add_auxiliary(
            xid("level"),
            AuxiliaryDataTypeConsumer::F32,
            AuxiliaryConfigParams::F32 {
                initial_value: 0.5f32.to_bits(),
                min_value: 0,
                max_value: 1f32.to_bits(),
            },
        )
        .unwrap();
    manager
        .add_auxiliary(xid("cube"), AuxiliaryDataTypeConsumer::F32Vec3, AuxiliaryConfigParams::F32Vec3)
        .unwrap();
    manager
        .add_auxiliary(xid("plain"), AuxiliaryDataTypeConsumer::F32, AuxiliaryConfigParams::Empty)
        .unwrap();
    assert!(matches!(
        manager.add_auxiliary(xid("cube"), AuxiliaryDataTypeConsumer::F32, AuxiliaryConfigParams::Empty),
        Err(AddAuxiliaryError::AuxiliaryExists(id)) if id == xid("cube")
    ));
    let data = manager.get_auxiliary_data();
    assert_eq!(data.len(), 3);
    let level = data.get(&"level".to_string()).unwrap();
    assert!(matches!(level.data, AuxiliaryDataType::F32(bits) if f32::from_bits(bits) == 0.5));
    assert_eq!(level.size, 1);
    let cube = data.get(&"cube".to_string()).unwrap();
    assert!(matches!(cube.data, AuxiliaryDataType::F32Vec3(_)));
    assert_eq!(cube.size, 0);
    assert!(matches!(data.get(&"plain".to_string()).unwrap().data, AuxiliaryDataType::F32(0)));
    assert_eq!(manager.get_available_auxiliaries(), vec![xid("level"), xid("cube"), xid("plain")]);
}

#[test]
fn parameters_belong_to_one_shape() {
    let scalar = AuxiliaryConfigParams::F32 { initial_value: 0, min_value: 0, max_value: 0 };
    assert!(scalar.is_compatible(AuxiliaryDataTypeConsumer::F32));
    assert!(!scalar.is_compatible(AuxiliaryDataTypeConsumer::F32Vec));
    assert!(AuxiliaryConfigParams::Empty.is_compatible(AuxiliaryDataTypeConsumer::Empty));
    assert!(AuxiliaryConfigParams::F32Vec4.is_compatible(AuxiliaryDataTypeConsumer::F32Vec4));
    assert!(!AuxiliaryConfigParams::F32Vec4.is_compatible(AuxiliaryDataTypeConsumer::F32Vec3));
}

#[test]
fn mapping_an_animation_replaces_its_auxiliaries() {
    let mut manager = AuxiliaryDataManager::new();
    manager.set_animation_auxiliary_sources_to(aid("a"), vec![xid("x"), xid("y")]);
    manager.set_animation_auxiliary_sources_to(aid("a"), vec![xid("y")]);
    let mapping = manager.get_animation_auxiliary_ids();
    assert_eq!(mapping.len(), 1);
    assert_eq!(mapping.get(&"a".to_string()), Some(&vec![xid("y")]));
}

#[test]
fn received_values_replace_the_current_value() {
    let mut manager = AuxiliaryDataManager::new();
    let device = did("noise");
    assert!(manager.on_device_added(device.clone(), DeviceKind::AuxiliaryData));
    assert!(!manager.on_device_added(did("strip"), DeviceKind::LEDDataOutput));
    assert_eq!(manager.channel_devices(), vec!["noise"]);
    manager
        .add_auxiliary(xid("x"), AuxiliaryDataTypeConsumer::F32Vec, AuxiliaryConfigParams::F32Vec)
        .unwrap();
    let value = |len: usize| {
        AuxiliaryDataType::F32Vec(AuxDataF32Vec::try_from((vec![7; len], len)).unwrap())
    };
    let message = |id: &str, len: usize| {
        AuxiliaryReceive::Data(AuxDeviceData { aux_id: xid(id), data: value(len) })
    };
    assert_eq!(manager.receive(&device, message("x", 4)), AuxiliaryOutcome::Updated);
    assert_eq!(manager.get_auxiliary_data().get(&"x".to_string()).unwrap().size, 4);
    assert_eq!(manager.receive(&device, message("unknown", 4)), AuxiliaryOutcome::UnknownAuxiliary);
    assert_eq!(manager.get_auxiliary_data().len(), 1);
    assert_eq!(manager.receive(&device, AuxiliaryReceive::Empty), AuxiliaryOutcome::Nothing);
    assert_eq!(manager.receive(&device, AuxiliaryReceive::Lagged(3)), AuxiliaryOutcome::Lagged(3));
    assert_eq!(manager.get_auxiliary_data().get(&"x".to_string()).unwrap().size, 4);
    assert_eq!(manager.channel_devices(), vec!["noise"]);
    assert_eq!(manager.receive(&device, AuxiliaryReceive::Closed), AuxiliaryOutcome::ChannelDropped);
    assert!(manager.channel_devices().is_empty());
    assert!(manager.on_device_added(device.clone(), DeviceKind::AuxiliaryData));
    manager.on_device_removed(&device);
    assert!(manager.channel_devices().is_empty());
}

#[test]
fn devices_are_added_once() {
    let mut manager = DeviceManager::new();
    let udp = DeviceConfigType::LEDDataOutput(LEDOutputConfigType::UDP(UDPSenderConfig::new(
        "strip".to_string(),
        "10.0.0.2".to_string(),
        7777,
    )));
    let noise = DeviceConfigType::Auxiliary(AuxiliaryDataConfigType::Noise(NoiseAuxiliaryConfig {
        aux_id: "x".to_string(),
    }));
    assert_eq!(udp.kind(), DeviceKind::LEDDataOutput);
    assert_eq!(noise.kind(), DeviceKind::AuxiliaryData);
    assert!(matches!(
        manager.add_device_from_config(did("strip"), &udp),
        Ok(DeviceManagerEvent::DeviceAdded(id)) if id == did("strip")
    ));
    assert!(matches!(
        manager.add_device(did("strip"), DeviceKind::AuxiliaryData),
        Err(DeviceManagerErrorAddDevice::DeviceAlreadyExists(id)) if id == did("strip")
    ));
    assert!(manager.add_device_from_config(did("noise"), &noise).is_ok());
    assert_eq!(manager.get_device(&did("strip")), Some(DeviceKind::LEDDataOutput));
    assert_eq!(manager.get_device(&did("noise")), Some(DeviceKind::AuxiliaryData));
    assert_eq!(manager.get_device(&did("other")), None);
    assert!(matches!(
        manager.remove_device(did("strip")),
        Ok(DeviceManagerEvent::DeviceRemoved(id)) if id == did("strip")
    ));
    assert!(matches!(
        manager.remove_device(did("strip")),
        Err(DeviceManagerErrorGetDevice::DeviceDoesNotExist(id)) if id == did("strip")
    ));
    assert_eq!(manager.get_device(&did("strip")), None);
}

#[test]
fn sender_configurations_keep_what_they_are_given() {
    let mqtt = MQTTSenderConfig::new(
        "wall".to_string(),
        "broker".to_string(),
        1883,
        "leds/wall".to_string(),
        Some(("user".to_string(), "secret".to_string())),
    );
    assert_eq!(mqtt.name(), "wall");
    assert_eq!(mqtt.host(), "broker");
    assert_eq!(mqtt.port(), 1883);
    assert_eq!(mqtt.topic(), "leds/wall");
    assert_eq!(mqtt.credentials(), &Some(("user".to_string(), "secret".to_string())));
    assert_eq!(mqtt.clone().topic(), "leds/wall");
    let udp = UDPSenderConfig::new("strip".to_string(), "host".to_string(), 9);
    assert_eq!(udp.name(), "strip");
    assert_eq!(udp.host(), "host");
    assert_eq!(udp.clone().port(), 9);
}

#[test]
fn noise_is_renewed_once_per_second() {
    let mut device = NoiseAuxiliaryDataDevice::new(did("noise"), xid("x"));
    assert_eq!(device.id(), &did("noise"));
    let early = FrameData::new(3, 1000, 25);
    let same_second = FrameData::new(20, 1000, 25);
    let next_second = FrameData::new(25, 1000, 25);
    assert!(device.needs_fresh_noise(&early));
    let first: Vec<u32> = (0..1000).map(|i| (i as f32 / 1000.0).to_bits()).collect();
    let message = device.tick(early, first.clone()).unwrap();
    assert_eq!(message.aux_id, xid("x"));
    match &message.data {
        AuxiliaryDataType::F32Vec3(cube) => {
            assert_eq!(cube.dimensions(), vec![10, 10, 10]);
            assert_eq!(cube.data(), &first);
        }
        other => panic!("unexpected {:?}", other),
    }
    // Within the same second the same noise is given, whatever is offered.
    assert!(!device.needs_fresh_noise(&same_second));
    let again = device.tick(same_second, vec![0; 1000]).unwrap();
    assert_eq!(again.data.to_data_buffer(), message.data.to_data_buffer());
    let kept = device.get_noise_for_frame(same_second, Vec::new()).unwrap();
    assert_eq!(kept.to_data_buffer(), message.data.to_data_buffer());
    // The next second takes new noise.
    assert!(device.needs_fresh_noise(&next_second));
    let second: Vec<u32> = vec![1f32.to_bits(); 1000];
    let renewed = device.tick(next_second, second.clone()).unwrap();
    assert!(matches!(&renewed.data, AuxiliaryDataType::F32Vec3(cube) if cube.data() == &second));
}

#[test]
fn noise_needs_a_thousand_scalars() {
    let mut device = NoiseAuxiliaryDataDevice::new(did("noise"), xid("x"));
    let frame = FrameData::new(1, 1000, 25);
    assert!(device.tick(frame, vec![0; 999]).is_none());
    assert!(device.needs_fresh_noise(&frame));
    assert!(device.tick(frame, vec![0; 1000]).is_some());
    device.send_data_to_aux(xid("y"));
    assert_eq!(device.tick(frame, Vec::new()).unwrap().aux_id, xid("y"));
}

#[test]
fn operations_come_due_at_their_frame() {
    let mut queue: Opqueue<&str> = Opqueue::new();
    queue.add_op("in three", 3);
    queue.add_op("in one", 1);
    queue.add_op("at once", 0);
    queue.add_op("in two", 2);
    queue.add_op("also in one", 1);
    assert_eq!(queue.get_frame_ops(), vec!["in one", "at once", "also in one"]);
    assert_eq!(queue.get_frame_ops(), vec!["in two"]);
    queue.add_op("late comer", 1);
    assert_eq!(queue.get_frame_ops(), vec!["in three", "late comer"]);
    assert!(queue.get_frame_ops().is_empty());
}

#[test]
fn the_default_configuration() {
    let config = EmblinkenatorConfig::default();
    assert_eq!(config.frame_buffer_size(), 10);
    assert_eq!(config.frame_numerator(), 1000);
    assert_eq!(config.frame_denominator(), 25);
    assert_eq!(config.leds_per_compute_group(), 64);
    assert_eq!(config.shaders.shader_folders, vec!["shaders"]);
    assert_eq!(ShadersConfig::default().shader_folders, vec!["shaders"]);
}

#[test]
fn startup_auxiliaries_say_what_they_are() {
    let scalar = StartupAuxiliaries::F32 {
        id: "x".to_string(),
        name: "Level".to_string(),
        initial_value: Some(0.25f32.to_bits()),
        max_value: None,
        min_value: None,
    };
    assert_eq!(scalar.get_name(), "Level");
    assert_eq!(scalar.auxiliary_id(), xid("x"));
    assert_eq!(scalar.consumer_type(), AuxiliaryDataTypeConsumer::F32);
    assert_eq!(
        scalar.config_params(),
        AuxiliaryConfigParams::F32 {
            initial_value: 0.25f32.to_bits(),
            min_value: 0f32.to_bits(),
            max_value: 1f32.to_bits(),
        }
    );
    let cube = StartupAuxiliaries::F32Vec3 { id: "c".to_string(), name: "Cube".to_string() };
    assert_eq!(cube.get_name(), "Cube");
    assert_eq!(cube.consumer_type(), AuxiliaryDataTypeConsumer::F32Vec3);
    assert_eq!(cube.config_params(), AuxiliaryConfigParams::F32Vec3);
}
