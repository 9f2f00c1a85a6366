use emblinkenator::animation::factory::AnimationManifest;
use emblinkenator::animation::{Animation, AnimationTargetType};
use emblinkenator::auxiliary_data::{AuxiliaryData, AuxiliaryDataType};
use emblinkenator::id::{AnimationId, AuxiliaryId, FixtureId};
use emblinkenator::pipeline::PipelineContext;
use emblinkenator::state::{aggregate, tick};
use emblinkenator::table::Table;
use emblinkenator::world::context::WorldContext;
use emblinkenator::world::fixture::{Fixture, FixtureProps};
use emblinkenator::world::state::WorldContextState;

fn animation(id: &str, target: &str) -> Animation {
    Animation::new(
        AnimationId::new_from(id.to_string()),
        AnimationManifest::new("source".to_string(), None),
        AnimationTargetType::Fixture(FixtureId::new_from(target.to_string())),
    )
}

fn world_state(fixtures: &[(&str, u32)]) -> WorldContextState {
    let mut world = WorldContext::empty();
    for (name, leds) in fixtures {
        world
            .add_fixture(Fixture::new(
                FixtureId::new_from(name.to_string()),
                FixtureProps { num_leds: *leds, led_positions: Vec::new() },
            ))
            .unwrap();
    }
    world.get_world_context_state()
}

struct Sources {
    animations: Table<Animation>,
    auxiliary_data: Table<AuxiliaryData>,
    mapping: Table<Vec<AuxiliaryId>>,
}

fn sources() -> Sources {
    let mut animations = Table::new();
    animations.insert("on_f".to_string(), animation("on_f", "f"));
    animations.insert("early".to_string(), animation("early", "not yet"));
    animations.insert("on_g".to_string(), animation("on_g", "g"));
    let mut auxiliary_data = Table::new();
    auxiliary_data.insert("x".to_string(), AuxiliaryData::of(AuxiliaryDataType::F32(5)));
    let mut mapping = Table::new();
    mapping.insert("on_f".to_string(), vec![AuxiliaryId::new_from("x".to_string())]);
    Sources { animations, auxiliary_data, mapping }
}

fn keys<V>(table: &Table<V>) -> Vec<String> {
    (0..table.len()).map(|i| table.key_at(i).clone()).collect()
}

fn describe(context: &PipelineContext) -> String {
    format!("{:?}", context)
}

#[test]
fn the_snapshot_joins_world_animations_and_auxiliaries() {
    let world = world_state(&[("f", 3), ("g", 2)]);
    let s = sources();
    let context = aggregate(&world, &s.animations, &s.auxiliary_data, &s.mapping);
    assert_eq!(keys(&context.num_leds), vec!["f", "g"]);
    assert_eq!(context.num_leds.get(&"f".to_string()), Some(&3));
    assert_eq!(context.led_positions.get(&"g".to_string()).unwrap().len(), 2);
    assert_eq!(keys(&context.auxiliary_data), vec!["x"]);
    assert_eq!(context.auxiliary_data.get(&"x".to_string()).unwrap().size, 1);
    assert_eq!(
        context.animation_auxiliary_data.get(&"on_f".to_string()),
        Some(&vec![AuxiliaryId::new_from("x".to_string())])
    );
}

#[test]
fn animations_without_a_known_target_are_left_out() {
    let world = world_state(&[("f", 3), ("g", 2)]);
    let s = sources();
    let context = aggregate(&world, &s.animations, &s.auxiliary_data, &s.mapping);
    assert_eq!(keys(&context.animations), vec!["on_f", "on_g"]);
    for i in 0..context.animations.len() {
        let target = context.animations.value_at(i).get_target_type().target_id();
        assert!(context.num_leds.contains_key(&target));
        assert!(context.led_positions.contains_key(&target));
    }
    // Once the world knows the target, the animation is in.
    let later = world_state(&[("f", 3), ("g", 2), ("not yet", 1)]);
    let context = aggregate(&later, &s.animations, &s.auxiliary_data, &s.mapping);
    assert_eq!(keys(&context.animations), vec!["on_f", "early", "on_g"]);
}

#[test]
fn aggregation_is_idempotent() {
    let world = world_state(&[("f", 3), ("g", 2)]);
    let s = sources();
    let first = aggregate(&world, &s.animations, &s.auxiliary_data, &s.mapping);
    let second = aggregate(&world, &s.animations, &s.auxiliary_data, &s.mapping);
    assert_eq!(describe(&first), describe(&second));
}

#[test]
fn full_mailboxes_are_passed_over() {
    let world = world_state(&[("f", 3)]);
    let s = sources();
    let snapshots =
        tick(&world, &s.animations, &s.auxiliary_data, &s.mapping, &vec![false, true, false]);
    assert_eq!(snapshots.len(), 3);
    assert!(snapshots[0].is_some());
    assert!(snapshots[1].is_none());
    assert!(snapshots[2].is_some());
    assert_eq!(keys(&snapshots[2].as_ref().unwrap().animations), vec!["on_f"]);
    assert!(tick(&world, &s.animations, &s.auxiliary_data, &s.mapping, &Vec::new()).is_empty());
}
