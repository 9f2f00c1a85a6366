//! The world as the pipeline sees it: for every target, its chunks, its
//! number of LEDs and the positions of its LEDs.

use crate::id::FixtureId;
use crate::table::Table;
use crate::world::chunk::{
    chunk_positions, chunk_total, chunk_views, copy_chunks, positions_of_chunks, saturated,
    total_of_chunks, ChunkView,
};
use crate::world::fixture::Fixture;
use crate::world::group::Group;
use crate::world::installation::Installation;
use crate::world::{copy_positions, Coord};
use vstd::prelude::*;

verus! {

/// What the pipeline needs to know of the world, by the text of each
/// target's identifier.
#[derive(Debug)]
pub struct WorldContextState {
    pub led_positions: Table<Vec<Coord>>,
    pub num_leds: Table<u32>,
    /// For each target, the fixtures its LEDs belong to, in order, with the
    /// number of LEDs of each.
    pub fixture_chunks: Table<Vec<(FixtureId, u32)>>,
}

/// Whether `key` names a fixture, an installation or a group.
pub open spec fn has_target(
    fixtures: Table<Fixture>,
    installations: Table<Installation>,
    groups: Table<Group>,
    key: Seq<char>,
) -> bool {
    fixtures.contains(key) || installations.contains(key) || groups.contains(key)
}

/// The chunks of the target `key`. Where one text names targets of several
/// kinds, a group goes before an installation and an installation before a
/// fixture.
pub open spec fn target_chunks(
    fixtures: Table<Fixture>,
    installations: Table<Installation>,
    groups: Table<Group>,
    key: Seq<char>,
) -> Seq<ChunkView> {
    if groups.contains(key) {
        groups.value_of(key).chunks(groups, installations, fixtures, groups.keys().len())
    } else if installations.contains(key) {
        installations.value_of(key).chunks(fixtures)
    } else {
        seq![(key, fixtures.value_of(key).spec_led_count())]
    }
}

impl WorldContextState {
    /// The three tables are well formed.
    pub open spec fn wf(&self) -> bool {
        &&& self.led_positions.wf()
        &&& self.num_leds.wf()
        &&& self.fixture_chunks.wf()
    }

    /// Whether the state knows the target `key`.
    pub open spec fn knows(&self, key: Seq<char>) -> bool {
        self.num_leds.contains(key)
    }

    /// The state holds, for `key`, the given chunks, their total number of
    /// LEDs and the positions of their LEDs.
    pub open spec fn records(&self, key: Seq<char>, chunks: Seq<ChunkView>, fixtures: Table<Fixture>) -> bool {
        &&& self.num_leds.contains(key)
        &&& self.led_positions.contains(key)
        &&& self.fixture_chunks.contains(key)
        &&& chunk_views(self.fixture_chunks.value_of(key)@) == chunks
        &&& self.num_leds.value_of(key) == saturated(chunk_total(chunks))
        &&& self.led_positions.value_of(key)@ == chunk_positions(chunks, fixtures)
    }

    /// The state holds nothing for `key`.
    pub open spec fn lacks(&self, key: Seq<char>) -> bool {
        &&& !self.num_leds.contains(key)
        &&& !self.led_positions.contains(key)
        &&& !self.fixture_chunks.contains(key)
    }

    /// The state is that of the world made of the given fixtures,
    /// installations and groups: it knows exactly their targets, each with
    /// its chunks, its number of LEDs (held at `u32::MAX` where there are
    /// more) and the positions of its LEDs.
    pub open spec fn describes(
        &self,
        fixtures: Table<Fixture>,
        installations: Table<Installation>,
        groups: Table<Group>,
    ) -> bool {
        &&& self.wf()
        &&& forall|k: Seq<char>|
            has_target(fixtures, installations, groups, k) ==> #[trigger] self.records(
                k,
                target_chunks(fixtures, installations, groups, k),
                fixtures,
            )
        &&& forall|k: Seq<char>|
            !has_target(fixtures, installations, groups, k) ==> #[trigger] self.lacks(k)
    }

    /// The state of an empty world.
    pub fn new() -> (state: WorldContextState)
        ensures
            state.wf(),
            forall|k: Seq<char>| #[trigger] state.lacks(k),
    {
        let state = WorldContextState {
            led_positions: Table::new(),
            num_leds: Table::new(),
            fixture_chunks: Table::new(),
        };
        assert forall|k: Seq<char>| #[trigger] state.lacks(k) by {
            if state.num_leds.contains(k) {
                state.num_leds.lemma_contains(k);
            }
            if state.led_positions.contains(k) {
                state.led_positions.lemma_contains(k);
            }
            if state.fixture_chunks.contains(k) {
                state.fixture_chunks.lemma_contains(k);
            }
        }
        state
    }

    /// Records `chunks` for the target `key`, with their total number of
    /// LEDs and the positions of their LEDs, in place of anything recorded
    /// for `key` before. Nothing else changes.
    pub fn record(&mut self, key: &String, chunks: Vec<(FixtureId, u32)>, fixtures: &Table<Fixture>)
        requires
            old(self).wf(),
            fixtures.wf(),
        ensures
            final(self).wf(),
            final(self).records(key@, chunk_views(chunks@), *fixtures),
            forall|k: Seq<char>, c: Seq<ChunkView>|
                k != key@ && old(self).records(k, c, *fixtures) ==> #[trigger] final(self).records(
                    k,
                    c,
                    *fixtures,
                ),
            forall|k: Seq<char>| k != key@ && old(self).lacks(k) ==> #[trigger] final(self).lacks(k),
    {
        let total = total_of_chunks(&chunks);
        let positions = positions_of_chunks(&chunks, fixtures);
        self.num_leds.insert(key.clone(), total);
        self.led_positions.insert(key.clone(), positions);
        self.fixture_chunks.insert(key.clone(), chunks);
    }

    /// A copy of the state.
    pub fn duplicate(&self) -> (twin: WorldContextState)
        requires
            self.wf(),
        ensures
            twin.wf(),
            forall|k: Seq<char>, c: Seq<ChunkView>, fixtures: Table<Fixture>|
                self.records(k, c, fixtures) ==> #[trigger] twin.records(k, c, fixtures),
            forall|k: Seq<char>| self.lacks(k) ==> #[trigger] twin.lacks(k),
            twin.num_leds.keys() == self.num_leds.keys(),
            twin.num_leds.values() == self.num_leds.values(),
            twin.led_positions.keys() == self.led_positions.keys(),
            twin.fixture_chunks.keys() == self.fixture_chunks.keys(),
    {
        let led_positions = copy_position_table(&self.led_positions);
        let fixture_chunks = copy_chunk_table(&self.fixture_chunks);
        let twin = WorldContextState { led_positions, num_leds: self.num_leds.copy(), fixture_chunks };
        proof {
            assert forall|k: Seq<char>, c: Seq<ChunkView>, fixtures: Table<Fixture>|
                self.records(k, c, fixtures) implies #[trigger] twin.records(k, c, fixtures) by {
                self.num_leds.lemma_contains(k);
                self.led_positions.lemma_contains(k);
                self.fixture_chunks.lemma_contains(k);
            }
        }
        twin
    }
}

/// The state of a world has positions for every target it has a number of
/// LEDs for, and the other way round.
pub proof fn lemma_described_state_is_aligned(
    state: WorldContextState,
    fixtures: Table<Fixture>,
    installations: Table<Installation>,
    groups: Table<Group>,
)
    requires
        state.describes(fixtures, installations, groups),
    ensures
        forall|k: Seq<char>| state.num_leds.contains(k) <==> state.led_positions.contains(k),
        forall|k: Seq<char>| state.num_leds.contains(k) <==> state.fixture_chunks.contains(k),
        forall|k: Seq<char>|
            state.num_leds.contains(k) <==> has_target(fixtures, installations, groups, k),
{
    assert forall|k: Seq<char>|
        (state.num_leds.contains(k) <==> state.led_positions.contains(k)) && (
        state.num_leds.contains(k) <==> state.fixture_chunks.contains(k)) && (
        state.num_leds.contains(k) <==> has_target(fixtures, installations, groups, k)) by {
        if has_target(fixtures, installations, groups, k) {
            assert(state.records(
                k,
                target_chunks(fixtures, installations, groups, k),
                fixtures,
            ));
        } else {
            assert(state.lacks(k));
        }
    }
}

/// Where every fixture has one position per LED, the state of the world has
/// one position per LED for every target: as many positions as the chunks of
/// the target have LEDs together, which is the target's number of LEDs
/// unless that is held at `u32::MAX`.
pub proof fn lemma_state_positions_match_counts(
    state: WorldContextState,
    fixtures: Table<Fixture>,
    installations: Table<Installation>,
    groups: Table<Group>,
    key: Seq<char>,
)
    requires
        state.describes(fixtures, installations, groups),
        crate::world::chunk::fixtures_consistent(fixtures),
        has_target(fixtures, installations, groups, key),
    ensures
        state.led_positions.value_of(key)@.len() == chunk_total(
            target_chunks(fixtures, installations, groups, key),
        ),
        chunk_total(target_chunks(fixtures, installations, groups, key)) <= u32::MAX
            ==> state.led_positions.value_of(key)@.len() == state.num_leds.value_of(key),
{
    let chunks = target_chunks(fixtures, installations, groups, key);
    assert(state.records(key, chunks, fixtures));
    if groups.contains(key) {
        let group = groups.value_of(key);
        crate::world::group::lemma_groups_chunks_of_fixtures(
            group.group_order(),
            groups,
            installations,
            fixtures,
            groups.keys().len(),
        );
        crate::world::group::lemma_installations_chunks_of_fixtures(
            group.installation_order(),
            installations,
            fixtures,
        );
        crate::world::chunk::lemma_chunks_of_fixtures_add(
            crate::world::group::groups_chunks(
                group.group_order(),
                groups,
                installations,
                fixtures,
                groups.keys().len(),
            ),
            crate::world::group::installations_chunks(
                group.installation_order(),
                installations,
                fixtures,
            ),
            fixtures,
        );
    } else if installations.contains(key) {
        crate::world::installation::lemma_installation_chunks_of_fixtures(
            installations.value_of(key).order(),
            fixtures,
        );
    } else {
        assert(chunks[0] == (key, fixtures.value_of(key).spec_led_count()));
    }
    crate::world::chunk::lemma_positions_match_total(chunks, fixtures);
}

/// A copy of a table of positions.
pub fn copy_position_table(table: &Table<Vec<Coord>>) -> (twin: Table<Vec<Coord>>)
    requires
        table.wf(),
    ensures
        twin.wf(),
        twin.keys() == table.keys(),
        forall|i: int| 0 <= i < table.keys().len() ==> (#[trigger] twin.values()[i])@ == table.values()[i]@,
{
    let mut twin: Table<Vec<Coord>> = Table::new();
    let n = table.len();
    let mut i: usize = 0;
    while i < n
        invariant
            table.wf(),
            twin.wf(),
            n == table.keys().len(),
            i <= n,
            twin.keys() == table.keys().subrange(0, i as int),
            forall|j: int| 0 <= j < i ==> (#[trigger] twin.values()[j])@ == table.values()[j]@,
        decreases n - i,
    {
        let key = table.key_at(i);
        proof {
            if twin.contains(key@) {
                twin.lemma_contains(key@);
                assert(table.keys()[twin.index_of(key@)] == table.keys()[i as int]);
            }
            assert(table.keys().subrange(0, i + 1) =~= table.keys().subrange(0, i as int).push(
                key@,
            ));
        }
        twin.insert(key.clone(), copy_positions(table.value_at(i)));
        i += 1;
    }
    assert(table.keys().subrange(0, n as int) =~= table.keys());
    twin
}

/// A copy of a table of chunks.
pub fn copy_chunk_table(table: &Table<Vec<(FixtureId, u32)>>) -> (twin: Table<Vec<(FixtureId, u32)>>)
    requires
        table.wf(),
    ensures
        twin.wf(),
        twin.keys() == table.keys(),
        forall|i: int|
            0 <= i < table.keys().len() ==> chunk_views((#[trigger] twin.values()[i])@)
                == chunk_views(table.values()[i]@),
{
    let mut twin: Table<Vec<(FixtureId, u32)>> = Table::new();
    let n = table.len();
    let mut i: usize = 0;
    while i < n
        invariant
            table.wf(),
            twin.wf(),
            n == table.keys().len(),
            i <= n,
            twin.keys() == table.keys().subrange(0, i as int),
            forall|j: int|
                0 <= j < i ==> chunk_views((#[trigger] twin.values()[j])@) == chunk_views(
                    table.values()[j]@,
                ),
        decreases n - i,
    {
        let key = table.key_at(i);
        proof {
            if twin.contains(key@) {
                twin.lemma_contains(key@);
                assert(table.keys()[twin.index_of(key@)] == table.keys()[i as int]);
            }
            assert(table.keys().subrange(0, i + 1) =~= table.keys().subrange(0, i as int).push(
                key@,
            ));
        }
        twin.insert(key.clone(), copy_chunks(table.value_at(i)));
        i += 1;
    }
    assert(table.keys().subrange(0, n as int) =~= table.keys());
    twin
}

} // verus!
