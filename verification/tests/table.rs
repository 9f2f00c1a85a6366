use emblinkenator::bytes::{push_all, push_be_bytes};
use emblinkenator::table::Table;
use emblinkenator::world::chunk::{copy_chunks, positions_of_chunks, total_of_chunks};
use emblinkenator::world::fixture::{Fixture, FixtureProps};
use emblinkenator::id::FixtureId;
use emblinkenator::world::{copy_positions, origin_positions, Coord};

fn keys<V>(table: &Table<V>) -> Vec<String> {
    (0..table.len()).map(|i| table.key_at(i).clone()).collect()
}

fn table(entries: &[(&str, u32)]) -> Table<u32> {
    let mut table = Table::new();
    for (key, value) in entries {
        table.insert(key.to_string(), *value);
    }
    table
}

#[test]
fn a_new_table_is_empty() {
    let table: Table<u32> = Table::new();
    assert_eq!(table.len(), 0);
    assert!(table.is_empty());
    assert_eq!(table.get(&"a".to_string()), None);
    assert!(!table.contains_key(&"a".to_string()));
    assert_eq!(table.position(&"a".to_string()), None);
}

#[test]
fn entries_keep_the_order_they_arrived_in() {
    let table = table(&[("b", 2), ("a", 1), ("c", 3)]);
    assert_eq!(keys(&table), vec!["b", "a", "c"]);
    assert_eq!(table.value_at(1), &1);
    assert_eq!(table.position(&"c".to_string()), Some(2));
    assert_eq!(table.get(&"a".to_string()), Some(&1));
    assert!(!table.is_empty());
}

#[test]
fn storing_under_a_present_key_replaces_in_place() {
    let mut table = table(&[("b", 2), ("a", 1), ("c", 3)]);
    table.insert("a".to_string(), 10);
    assert_eq!(keys(&table), vec!["b", "a", "c"]);
    assert_eq!(table.get(&"a".to_string()), Some(&10));
    assert_eq!(table.len(), 3);
}

#[test]
fn removing_closes_the_gap() {
    let mut table = table(&[("b", 2), ("a", 1), ("c", 3)]);
    assert_eq!(table.remove(&"a".to_string()), Some(1));
    assert_eq!(keys(&table), vec!["b", "c"]);
    assert_eq!(table.remove(&"a".to_string()), None);
    assert_eq!(table.get(&"c".to_string()), Some(&3));
    table.insert("a".to_string(), 7);
    assert_eq!(keys(&table), vec!["b", "c", "a"]);
}

#[test]
fn missing_keys_are_listed_in_table_order() {
    let ours = table(&[("b", 2), ("a", 1), ("c", 3), ("d", 4)]);
    let theirs = table(&[("c", 0), ("x", 0), ("b", 0)]);
    assert_eq!(ours.missing_from(&theirs), vec!["a", "d"]);
    assert_eq!(theirs.missing_from(&ours), vec!["x"]);
    assert!(ours.missing_from(&ours).is_empty());
}

#[test]
fn removing_many_keys_keeps_the_rest() {
    let mut ours = table(&[("b", 2), ("a", 1), ("c", 3), ("d", 4)]);
    ours.remove_all(&vec!["c".to_string(), "x".to_string(), "b".to_string(), "c".to_string()]);
    assert_eq!(keys(&ours), vec!["a", "d"]);
    assert_eq!(ours.get(&"d".to_string()), Some(&4));
}

#[test]
fn a_copy_is_equal_and_independent() {
    let ours = table(&[("b", 2), ("a", 1)]);
    let mut twin = ours.copy();
    assert_eq!(keys(&twin), keys(&ours));
    twin.insert("b".to_string(), 9);
    assert_eq!(ours.get(&"b".to_string()), Some(&2));
    assert_eq!(twin.get(&"b".to_string()), Some(&9));
}

#[test]
fn words_are_written_most_significant_byte_first() {
    let mut out = vec![9u8];
    push_be_bytes(&mut out, 0x0102_0304);
    push_be_bytes(&mut out, 0);
    push_be_bytes(&mut out, u32::MAX);
    assert_eq!(out, vec![9, 1, 2, 3, 4, 0, 0, 0, 0, 255, 255, 255, 255]);
    push_all(&mut out, &vec![7, 8]);
    assert_eq!(&out[13..], &[7, 8]);
}

#[test]
fn positions_are_copied_and_made() {
    let positions = vec![Coord { x: 1, y: 2, z: 3 }, Coord::origin()];
    assert_eq!(copy_positions(&positions), positions);
    assert_eq!(origin_positions(3), vec![Coord::origin(); 3]);
    assert!(origin_positions(0).is_empty());
}

#[test]
fn chunks_add_up() {
    let id = |text: &str| FixtureId::new_from(text.to_string());
    let chunks = vec![(id("a"), 2u32), (id("missing"), 5), (id("b"), 1)];
    assert_eq!(total_of_chunks(&chunks), 8);
    assert_eq!(total_of_chunks(&Vec::new()), 0);
    assert_eq!(total_of_chunks(&vec![(id("a"), u32::MAX), (id("b"), 1)]), u32::MAX);
    assert_eq!(copy_chunks(&chunks), chunks);
    let mut fixtures = Table::new();
    for (name, leds) in [("a", 2u32), ("b", 1)] {
        let positions = (0..leds).map(|i| Coord { x: i, y: 0, z: 0 }).collect();
        fixtures.insert(
            name.to_string(),
            Fixture::new(id(name), FixtureProps { num_leds: leds, led_positions: positions }),
        );
    }
    let positions = positions_of_chunks(&chunks, &fixtures);
    assert_eq!(
        positions,
        vec![Coord { x: 0, y: 0, z: 0 }, Coord { x: 1, y: 0, z: 0 }, Coord { x: 0, y: 0, z: 0 }]
    );
}
