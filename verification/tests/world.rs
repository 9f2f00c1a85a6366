use emblinkenator::animation::AnimationTarget;
use emblinkenator::id::{FixtureId, GroupId, InstallationId};
use emblinkenator::world::context::{
    WorldContext, WorldContextCollection, WorldContextErrorAddFixture, WorldContextErrorAddGroup,
    WorldContextErrorAddInstallation, WorldContextErrorRemoveFixture,
    WorldContextErrorRemoveGroup, WorldContextErrorRemoveInstallation, WorldContextEvent,
};
use emblinkenator::world::fixture::{Fixture, FixtureErrorSetLEDPosition, FixtureProps};
use emblinkenator::world::group::{Group, GroupOrder, InstallationOrder};
use emblinkenator::world::installation::{FixtureOrder, Installation};
use emblinkenator::world::{flatten_positions, Coord};

fn at(x: f32, y: f32, z: f32) -> Coord {
    Coord { x: x.to_bits(), y: y.to_bits(), z: z.to_bits() }
}

fn fid(text: &str) -> FixtureId {
    FixtureId::new_from(text.to_string())
}

fn fixture(text: &str, leds: u32) -> Fixture {
    let positions = (0..leds).map(|i| at(i as f32, 0.0, 0.0)).collect();
    Fixture::new(fid(text), FixtureProps { num_leds: leds, led_positions: positions })
}

fn installation(text: &str, fixtures: &[&str]) -> Installation {
    let mut made = Installation::new(InstallationId::new_from(text.to_string()));
    made.set_fixtures(
        fixtures.iter().map(|f| FixtureOrder { id: fid(f), position: Coord::origin() }).collect(),
    );
    made
}

fn group(text: &str, groups: &[&str], installations: &[&str]) -> Group {
    let mut made = Group::new(GroupId::new_from(text.to_string()));
    made.set_groups(
        groups
            .iter()
            .map(|g| GroupOrder {
                id: GroupId::new_from(g.to_string()),
                position: Coord::origin(),
            })
            .collect(),
    );
    made.set_installations(
        installations
            .iter()
            .map(|i| InstallationOrder {
                id: InstallationId::new_from(i.to_string()),
                position: Coord::origin(),
            })
            .collect(),
    );
    made
}

fn chunk_list(chunks: &[(FixtureId, u32)]) -> Vec<(String, u32)> {
    chunks.iter().map(|(id, n)| (id.unprotect(), *n)).collect()
}

fn named(pairs: &[(&str, u32)]) -> Vec<(String, u32)> {
    pairs.iter().map(|(n, c)| (n.to_string(), *c)).collect()
}

#[test]
fn origin_is_all_zero() {
    assert_eq!(Coord::origin(), at(0.0, 0.0, 0.0));
    assert_eq!(Coord::origin().flat(), vec![0, 0, 0]);
    assert_eq!(at(1.0, 2.0, 3.0).flat(), vec![1f32.to_bits(), 2f32.to_bits(), 3f32.to_bits()]);
}

#[test]
fn positions_flatten_to_x_y_z() {
    let flat = flatten_positions(&vec![at(1.0, 2.0, 3.0), at(4.0, 5.0, 6.0)]);
    let numbers: Vec<f32> = flat.iter().map(|b| f32::from_bits(*b)).collect();
    assert_eq!(numbers, vec![1.0, 2.0, 3.0, 4.0, 5.0, 6.0]);
}

#[test]
fn fixture_has_one_position_per_led() {
    let made = fixture("f", 3);
    assert_eq!(made.led_count(), 3);
    assert_eq!(made.get_all_led_positions().len(), 3);
    assert_eq!(made.get_led_position(2), Some(&at(2.0, 0.0, 0.0)));
    assert_eq!(made.get_led_position(3), None);
}

#[test]
fn fixture_with_wrong_positions_is_placed_at_the_origin() {
    let made = Fixture::new(
        fid("f"),
        FixtureProps { num_leds: 4, led_positions: vec![at(1.0, 1.0, 1.0)] },
    );
    assert_eq!(made.led_count(), 4);
    assert_eq!(made.get_all_led_positions(), vec![Coord::origin(); 4]);
}

#[test]
fn led_positions_can_be_set_within_the_fixture() {
    let mut made = fixture("f", 2);
    assert!(made.set_led_position(1, at(9.0, 9.0, 9.0)).is_ok());
    assert_eq!(made.get_led_position(1), Some(&at(9.0, 9.0, 9.0)));
    assert!(matches!(
        made.set_led_position(2, Coord::origin()),
        Err(FixtureErrorSetLEDPosition::LEDDoesNotExist)
    ));
    assert_eq!(made.led_count(), 2);
}

#[test]
fn fixtures_are_added_once_and_removed_once() {
    let mut world = WorldContext::empty();
    assert!(matches!(
        world.add_fixture(fixture("f", 3)),
        Ok(WorldContextEvent::FixtureAdded(id)) if id == fid("f")
    ));
    assert!(matches!(
        world.add_fixture(fixture("f", 5)),
        Err(WorldContextErrorAddFixture::FixtureExists)
    ));
    assert_eq!(world.get_fixture(&fid("f")).unwrap().led_count(), 3);
    assert_eq!(world.get_registered_fixtures(), vec![fid("f")]);
    assert!(matches!(
        world.remove_fixture(&fid("f")),
        Ok(WorldContextEvent::FixtureRemoved(id)) if id == fid("f")
    ));
    assert!(matches!(
        world.remove_fixture(&fid("f")),
        Err(WorldContextErrorRemoveFixture::FixtureDoesNotExist)
    ));
    assert!(world.get_fixture(&fid("f")).is_none());
}

#[test]
fn installations_and_groups_are_added_once_and_removed_once() {
    let mut world = WorldContext::empty();
    assert!(world.add_installation(installation("i", &[])).is_ok());
    assert!(matches!(
        world.add_installation(installation("i", &[])),
        Err(WorldContextErrorAddInstallation::InstallationExists)
    ));
    assert!(world.add_group(group("g", &[], &["i"])).is_ok());
    assert!(matches!(
        world.add_group(group("g", &[], &[])),
        Err(WorldContextErrorAddGroup::GroupExists)
    ));
    assert_eq!(
        world.get_registered_installations(),
        vec![InstallationId::new_from("i".to_string())]
    );
    assert_eq!(world.get_registered_groups(), vec![GroupId::new_from("g".to_string())]);
    assert!(world.get_installation(&InstallationId::new_from("i".to_string())).is_some());
    assert!(world.get_group(&GroupId::new_from("g".to_string())).is_some());
    assert!(world.remove_installation(&InstallationId::new_from("i".to_string())).is_ok());
    assert!(matches!(
        world.remove_installation(&InstallationId::new_from("i".to_string())),
        Err(WorldContextErrorRemoveInstallation::InstallationDoesNotExist)
    ));
    assert!(world.remove_group(&GroupId::new_from("g".to_string())).is_ok());
    assert!(matches!(
        world.remove_group(&GroupId::new_from("g".to_string())),
        Err(WorldContextErrorRemoveGroup::GroupDoesNotExist)
    ));
}

#[test]
fn installation_chunks_follow_the_fixture_order() {
    let mut world = WorldContext::empty();
    world.add_fixture(fixture("a", 2)).unwrap();
    world.add_fixture(fixture("b", 3)).unwrap();
    let made = installation("i", &["b", "missing", "a", "b"]);
    assert_eq!(
        chunk_list(&made.get_fixture_chunks(&world)),
        named(&[("b", 3), ("a", 2), ("b", 3)])
    );
    assert_eq!(made.led_count(&world), 8);
    assert_eq!(made.num_leds(&world), 8);
    let positions = made.get_all_led_positions(&world);
    assert_eq!(positions.len(), 8);
    assert_eq!(positions[3], at(0.0, 0.0, 0.0));
    assert_eq!(positions[4], at(1.0, 0.0, 0.0));
    assert_eq!(made.get_led_position(&world, 2), at(2.0, 0.0, 0.0));
    assert_eq!(made.get_led_position(&world, 8), Coord::origin());
    assert_eq!(
        made.get_fixture_position(&fid("a")),
        Some(&Coord::origin())
    );
    assert_eq!(made.get_fixture_position(&fid("z")), None);
}

#[test]
fn group_chunks_are_groups_then_installations() {
    let mut world = WorldContext::empty();
    world.add_fixture(fixture("a", 1)).unwrap();
    world.add_fixture(fixture("b", 2)).unwrap();
    world.add_fixture(fixture("c", 3)).unwrap();
    world.add_installation(installation("ia", &["a"])).unwrap();
    world.add_installation(installation("ibc", &["b", "c"])).unwrap();
    world.add_group(group("inner", &[], &["ibc"])).unwrap();
    world.add_group(group("outer", &["inner"], &["ia"])).unwrap();
    let outer = world.get_group(&GroupId::new_from("outer".to_string())).unwrap();
    assert_eq!(
        chunk_list(&outer.get_fixture_chunks(&world)),
        named(&[("b", 2), ("c", 3), ("a", 1)])
    );
    assert_eq!(outer.led_count(&world), 6);
    let positions = outer.get_all_led_positions(&world);
    assert_eq!(positions.len(), 6);
    assert_eq!(positions[5], at(0.0, 0.0, 0.0));
    assert_eq!(outer.get_led_position(&world, 1), at(1.0, 0.0, 0.0));
    assert_eq!(outer.led_positions(&world).len(), 6);
}

#[test]
fn a_group_cannot_hold_itself() {
    let mut world = WorldContext::empty();
    assert!(matches!(
        world.add_group(group("a", &["a"], &[])),
        Err(WorldContextErrorAddGroup::GroupCycle)
    ));
    // `a` holds `b`, which does not exist yet: fine.
    world.add_group(group("a", &["b"], &[])).unwrap();
    // `b` holding `a` would close the circle.
    assert!(matches!(
        world.add_group(group("b", &["a"], &[])),
        Err(WorldContextErrorAddGroup::GroupCycle)
    ));
    world.add_group(group("c", &["a"], &[])).unwrap();
    assert!(matches!(
        world.add_group(group("b", &["c"], &[])),
        Err(WorldContextErrorAddGroup::GroupCycle)
    ));
    assert!(world.add_group(group("b", &[], &[])).is_ok());
}

#[test]
fn state_knows_every_target() {
    let mut world = WorldContext::empty();
    world.add_fixture(fixture("a", 2)).unwrap();
    world.add_fixture(fixture("b", 3)).unwrap();
    world.add_installation(installation("i", &["a", "b"])).unwrap();
    world.add_group(group("g", &[], &["i"])).unwrap();
    let state = world.get_world_context_state();
    assert_eq!(state.num_leds.len(), 4);
    assert_eq!(state.num_leds.get(&"a".to_string()), Some(&2));
    assert_eq!(state.num_leds.get(&"b".to_string()), Some(&3));
    assert_eq!(state.num_leds.get(&"i".to_string()), Some(&5));
    assert_eq!(state.num_leds.get(&"g".to_string()), Some(&5));
    assert_eq!(state.led_positions.get(&"g".to_string()).unwrap().len(), 5);
    assert_eq!(
        chunk_list(state.fixture_chunks.get(&"a".to_string()).unwrap()),
        named(&[("a", 2)])
    );
    assert_eq!(
        chunk_list(state.fixture_chunks.get(&"g".to_string()).unwrap()),
        named(&[("a", 2), ("b", 3)])
    );
}

#[test]
fn mutation_invalidates_the_cached_state() {
    let mut world = WorldContext::empty();
    world.add_fixture(fixture("a", 2)).unwrap();
    world.add_installation(installation("i", &["a", "b"])).unwrap();
    let first = world.get_world_context_state();
    assert_eq!(first.num_leds.get(&"i".to_string()), Some(&2));
    // Read again without change: the same.
    let again = world.get_world_context_state();
    assert_eq!(again.num_leds.get(&"i".to_string()), Some(&2));
    assert_eq!(again.num_leds.len(), 2);
    // A new fixture changes what the installation holds.
    world.add_fixture(fixture("b", 3)).unwrap();
    let second = world.get_world_context_state();
    assert_eq!(second.num_leds.get(&"i".to_string()), Some(&5));
    assert_eq!(second.num_leds.get(&"b".to_string()), Some(&3));
    // Removing it changes it back.
    world.remove_fixture(&fid("b")).unwrap();
    let third = world.get_world_context_state();
    assert_eq!(third.num_leds.get(&"i".to_string()), Some(&2));
    assert_eq!(third.num_leds.get(&"b".to_string()), None);
    // A failed mutation changes nothing.
    assert!(world.remove_fixture(&fid("b")).is_err());
    assert_eq!(world.get_world_context_state().num_leds.len(), 2);
}

#[test]
fn a_world_can_be_made_of_a_collection() {
    let mut collection = WorldContextCollection::new();
    collection.fixtures.insert("a".to_string(), fixture("a", 2));
    let mut world = WorldContext::new(collection);
    assert_eq!(world.get_fixture(&fid("a")).unwrap().led_count(), 2);
    assert_eq!(world.get_world_context_state().num_leds.get(&"a".to_string()), Some(&2));
}

#[test]
fn a_later_kind_takes_a_shared_name() {
    let mut world = WorldContext::empty();
    world.add_fixture(fixture("x", 2)).unwrap();
    world.add_fixture(fixture("y", 4)).unwrap();
    world.add_installation(installation("x", &["y"])).unwrap();
    let state = world.get_world_context_state();
    assert_eq!(state.num_leds.get(&"x".to_string()), Some(&4));
}

#[test]
fn groups_are_followed_through_every_level() {
    let mut world = WorldContext::empty();
    world.add_fixture(fixture("leaf", 4)).unwrap();
    world.add_installation(installation("bottom", &["leaf"])).unwrap();
    world.add_group(group("g0", &[], &["bottom"])).unwrap();
    for level in 1..6 {
        let inner = format!("g{}", level - 1);
        world.add_group(group(&format!("g{}", level), &[&inner], &[])).unwrap();
    }
    let top = world.get_group(&GroupId::new_from("g5".to_string())).unwrap();
    assert_eq!(chunk_list(&top.get_fixture_chunks(&world)), named(&[("leaf", 4)]));
    assert_eq!(top.led_count(&world), 4);
    let state = world.get_world_context_state();
    assert_eq!(state.num_leds.get(&"g5".to_string()), Some(&4));
    // A group held twice counts twice.
    world.add_group(group("both", &["g5", "g0"], &["bottom"])).unwrap();
    let both = world.get_group(&GroupId::new_from("both".to_string())).unwrap();
    assert_eq!(both.led_count(&world), 12);
}

#[test]
fn a_group_of_missing_members_is_empty() {
    let mut world = WorldContext::empty();
    world.add_group(group("g", &["nowhere"], &["nothing"])).unwrap();
    let made = world.get_group(&GroupId::new_from("g".to_string())).unwrap();
    assert!(made.get_fixture_chunks(&world).is_empty());
    assert_eq!(made.led_count(&world), 0);
    assert!(made.get_all_led_positions(&world).is_empty());
    assert_eq!(made.get_led_position(&world, 0), Coord::origin());
}
