use emblinkenator::animation::factory::{AnimationRegistry};
use emblinkenator::animation::manager::AnimationManager;
use emblinkenator::animation::AnimationTargetType;
use emblinkenator::devices::manager::DeviceKind;
use emblinkenator::event_loop::PipelineFrameOutput;
use emblinkenator::frame_resolver::{cut, split_frame, Delivery, FrameResolver, Route};
use emblinkenator::id::{AnimationId, DeviceId, FixtureId, GroupId, InstallationId};
use emblinkenator::led::LED;
use emblinkenator::table::Table;
use emblinkenator::world::context::WorldContext;
use emblinkenator::world::fixture::{Fixture, FixtureProps};
use emblinkenator::world::group::{Group, InstallationOrder};
use emblinkenator::world::installation::{FixtureOrder, Installation};
use emblinkenator::world::Coord;

fn led(n: u8) -> LED {
    LED { r: n, g: n, b: n }
}

fn leds(count: u8) -> Vec<LED> {
    (1..=count).map(led).collect()
}

fn fid(text: &str) -> FixtureId {
    FixtureId::new_from(text.to_string())
}

fn chunks(pairs: &[(&str, u32)]) -> Vec<(FixtureId, u32)> {
    pairs.iter().map(|(n, c)| (fid(n), *c)).collect()
}

fn world() -> WorldContext {
    let mut world = WorldContext::empty();
    for (name, count) in [("a", 2u32), ("b", 3), ("c", 1)] {
        world
            .add_fixture(Fixture::new(
                fid(name),
                FixtureProps { num_leds: count, led_positions: Vec::new() },
            ))
            .unwrap();
    }
    let mut installation = Installation::new(InstallationId::new_from("i".to_string()));
    installation.set_fixtures(vec![
        FixtureOrder { id: fid("a"), position: Coord::origin() },
        FixtureOrder { id: fid("b"), position: Coord::origin() },
    ]);
    world.add_installation(installation).unwrap();
    let mut group = Group::new(GroupId::new_from("g".to_string()));
    group.set_installations(vec![InstallationOrder {
        id: InstallationId::new_from("i".to_string()),
        position: Coord::origin(),
    }]);
    world.add_group(group).unwrap();
    world
}

fn manager(animations: &[(&str, AnimationTargetType)]) -> AnimationManager {
    let mut registry = AnimationRegistry::new();
    registry.register("shader".to_string(), "source".to_string(), None).unwrap();
    let mut manager = AnimationManager::new(registry);
    for (id, target) in animations {
        manager
            .create_animation(
                AnimationId::new_from(id.to_string()),
                "shader".to_string(),
                target.clone(),
            )
            .unwrap();
    }
    manager
}

fn output(entries: Vec<(&str, Vec<LED>)>) -> PipelineFrameOutput {
    let mut states = Table::new();
    for (id, data) in entries {
        states.insert(id.to_string(), data);
    }
    PipelineFrameOutput { states }
}

fn on_fixture(name: &str) -> AnimationTargetType {
    AnimationTargetType::Fixture(fid(name))
}

fn summary(deliveries: &[Delivery]) -> Vec<(String, Vec<LED>)> {
    deliveries.iter().map(|d| (d.fixture.unprotect(), d.frame.clone())).collect()
}

#[test]
fn cut_pads_with_dark_leds() {
    let data = leds(4);
    assert_eq!(cut(&data, 0, 2), vec![led(1), led(2)]);
    assert_eq!(cut(&data, 3, 3), vec![led(4), LED::default(), LED::default()]);
    assert_eq!(cut(&data, 4, 2), vec![LED::default(); 2]);
    assert_eq!(cut(&data, 9, 1), vec![LED::default()]);
    assert_eq!(cut(&data, 1, 0), Vec::<LED>::new());
}

#[test]
fn splitting_is_a_partition() {
    let data = leds(6);
    let slices = split_frame(&data, &chunks(&[("a", 2), ("b", 3), ("c", 1)]));
    assert_eq!(slices.len(), 3);
    assert_eq!(slices[0], (fid("a"), vec![led(1), led(2)]));
    assert_eq!(slices[1], (fid("b"), vec![led(3), led(4), led(5)]));
    assert_eq!(slices[2], (fid("c"), vec![led(6)]));
    let joined: Vec<LED> = slices.iter().flat_map(|s| s.1.clone()).collect();
    assert_eq!(joined, data);
}

#[test]
fn splitting_pads_short_data_on_the_right() {
    let data = leds(3);
    let slices = split_frame(&data, &chunks(&[("a", 2), ("b", 3), ("c", 1)]));
    assert_eq!(slices[0].1, vec![led(1), led(2)]);
    assert_eq!(slices[1].1, vec![led(3), LED::default(), LED::default()]);
    assert_eq!(slices[2].1, vec![LED::default()]);
    let joined: Vec<LED> = slices.iter().flat_map(|s| s.1.clone()).collect();
    let mut padded = data.clone();
    padded.resize(6, LED::default());
    assert_eq!(joined, padded);
}

#[test]
fn splitting_along_no_chunks_gives_nothing() {
    assert!(split_frame(&leds(3), &Vec::new()).is_empty());
    let slices = split_frame(&Vec::new(), &chunks(&[("a", 2)]));
    assert_eq!(slices, vec![(fid("a"), vec![LED::default(); 2])]);
}

#[test]
fn a_fixture_target_gets_its_leds() {
    let resolver = FrameResolver::new();
    let deliveries = resolver.resolve(
        &manager(&[("anim", on_fixture("b"))]),
        &world(),
        &output(vec![("anim", leds(3))]),
    );
    assert_eq!(summary(&deliveries), vec![("b".to_string(), leds(3))]);
    assert!(matches!(deliveries[0].route, Route::Unmapped));
}

#[test]
fn an_installation_target_is_cut_along_its_fixtures() {
    let resolver = FrameResolver::new();
    let target = AnimationTargetType::Installation(InstallationId::new_from("i".to_string()));
    let deliveries =
        resolver.resolve(&manager(&[("anim", target)]), &world(), &output(vec![("anim", leds(5))]));
    assert_eq!(
        summary(&deliveries),
        vec![
            ("a".to_string(), vec![led(1), led(2)]),
            ("b".to_string(), vec![led(3), led(4), led(5)])
        ]
    );
}

#[test]
fn a_group_target_is_cut_along_its_fixtures() {
    let resolver = FrameResolver::new();
    let target = AnimationTargetType::Group(GroupId::new_from("g".to_string()));
    let deliveries =
        resolver.resolve(&manager(&[("anim", target)]), &world(), &output(vec![("anim", leds(5))]));
    assert_eq!(deliveries.len(), 2);
    assert_eq!(deliveries[1].frame, vec![led(3), led(4), led(5)]);
}

#[test]
fn entries_of_unknown_animations_are_dropped() {
    let resolver = FrameResolver::new();
    let deliveries = resolver.resolve(
        &manager(&[("known", on_fixture("c"))]),
        &world(),
        &output(vec![("unknown", leds(2)), ("known", leds(1))]),
    );
    assert_eq!(summary(&deliveries), vec![("c".to_string(), leds(1))]);
}

#[test]
fn the_last_writer_wins_per_target() {
    let resolver = FrameResolver::new();
    let deliveries = resolver.resolve(
        &manager(&[
            ("first", on_fixture("a")),
            ("other", on_fixture("c")),
            ("second", on_fixture("a")),
        ]),
        &world(),
        &output(vec![
            ("first", vec![led(1), led(1)]),
            ("other", vec![led(7)]),
            ("second", vec![led(2), led(2)]),
        ]),
    );
    assert_eq!(
        summary(&deliveries),
        vec![("a".to_string(), vec![led(2), led(2)]), ("c".to_string(), vec![led(7)])]
    );
}

#[test]
fn targets_of_different_kinds_do_not_interfere() {
    let mut world = world();
    let mut same_name = Installation::new(InstallationId::new_from("a".to_string()));
    same_name.set_fixtures(vec![FixtureOrder { id: fid("c"), position: Coord::origin() }]);
    world.add_installation(same_name).unwrap();
    let resolver = FrameResolver::new();
    let deliveries = resolver.resolve(
        &manager(&[
            ("on_fixture", on_fixture("a")),
            (
                "on_installation",
                AnimationTargetType::Installation(InstallationId::new_from("a".to_string())),
            ),
        ]),
        &world,
        &output(vec![("on_fixture", leds(2)), ("on_installation", vec![led(9)])]),
    );
    assert_eq!(
        summary(&deliveries),
        vec![("a".to_string(), leds(2)), ("c".to_string(), vec![led(9)])]
    );
}

#[test]
fn a_removed_fixture_gets_nothing() {
    let mut world = world();
    world.remove_fixture(&fid("b")).unwrap();
    let resolver = FrameResolver::new();
    let animations = manager(&[
        ("on_b", on_fixture("b")),
        (
            "on_i",
            AnimationTargetType::Installation(InstallationId::new_from("i".to_string())),
        ),
    ]);
    let deliveries =
        resolver.resolve(&animations, &world, &output(vec![("on_b", leds(3)), ("on_i", leds(5))]));
    // Nothing for `b`; the installation is left with `a` alone.
    assert_eq!(summary(&deliveries), vec![("a".to_string(), vec![led(1), led(2)])]);
}

#[test]
fn slices_are_routed_by_fixture() {
    let mut resolver = FrameResolver::new();
    let strip = DeviceId::new_from("strip".to_string());
    let panel = DeviceId::new_from("panel".to_string());
    resolver.set_fixture_to_device(fid("a"), strip.clone());
    resolver.set_fixture_to_device(fid("b"), panel.clone());
    resolver.set_device_buffer(strip.clone());
    let target = AnimationTargetType::Installation(InstallationId::new_from("i".to_string()));
    let animations = manager(&[("anim", target), ("other", on_fixture("c"))]);
    let deliveries = resolver.resolve(
        &animations,
        &world(),
        &output(vec![("anim", leds(5)), ("other", leds(1))]),
    );
    assert!(matches!(&deliveries[0].route, Route::Device(d) if *d == strip));
    assert!(matches!(&deliveries[1].route, Route::NoBuffer(d) if *d == panel));
    assert!(matches!(&deliveries[2].route, Route::Unmapped));
    assert!(matches!(resolver.route(&fid("a")), Route::Device(d) if d == strip));
}

#[test]
fn output_devices_get_a_buffer_when_added() {
    let mut resolver = FrameResolver::new();
    let strip = DeviceId::new_from("strip".to_string());
    let noise = DeviceId::new_from("noise".to_string());
    resolver.set_fixture_to_device(fid("a"), strip.clone());
    resolver.set_fixture_to_device(fid("b"), noise.clone());
    assert!(resolver.on_device_added(strip.clone(), DeviceKind::LEDDataOutput));
    assert!(!resolver.on_device_added(noise.clone(), DeviceKind::AuxiliaryData));
    assert!(matches!(resolver.route(&fid("a")), Route::Device(_)));
    assert!(matches!(resolver.route(&fid("b")), Route::NoBuffer(_)));
}

#[test]
fn removing_a_device_clears_its_routes() {
    let mut resolver = FrameResolver::new();
    let strip = DeviceId::new_from("strip".to_string());
    let panel = DeviceId::new_from("panel".to_string());
    resolver.set_fixture_to_device(fid("a"), strip.clone());
    resolver.set_fixture_to_device(fid("b"), panel.clone());
    resolver.set_fixture_to_device(fid("c"), strip.clone());
    resolver.set_device_buffer(strip.clone());
    resolver.set_device_buffer(panel.clone());
    resolver.remove_device(&strip);
    assert!(matches!(resolver.route(&fid("a")), Route::Unmapped));
    assert!(matches!(resolver.route(&fid("c")), Route::Unmapped));
    assert!(matches!(resolver.route(&fid("b")), Route::Device(d) if d == panel));
}
