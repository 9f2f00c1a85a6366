//! Installations: fixtures in a fixed order.

use crate::id::{FixtureId, InstallationId};
use crate::table::Table;
use crate::world::chunk::{
    chunk_positions, chunk_views, positions_of_chunks, saturated, chunk_total, total_of_chunks,
    ChunkView,
};
use crate::world::context::WorldContext;
use crate::world::fixture::Fixture;
use crate::world::Coord;
use vstd::prelude::*;

verus! {

/// An ordered sequence of fixtures, each placed somewhere.
#[derive(Debug)]
pub struct Installation {
    id: InstallationId,
    fixtures: Table<Coord>,
    fixture_order: Vec<FixtureId>,
}

/// What an installation holds: where each fixture is placed, and the order
/// of the fixtures.
#[derive(Debug)]
pub struct InstallationProps {
    pub fixtures: Table<Coord>,
    pub fixture_order: Vec<FixtureId>,
}

/// A fixture's place in an installation.
#[derive(Debug)]
pub struct FixtureOrder {
    pub id: FixtureId,
    pub position: Coord,
}

/// The text of each identifier of a list.
pub open spec fn fixture_keys(ids: Seq<FixtureId>) -> Seq<Seq<char>> {
    ids.map_values(|id: FixtureId| id@)
}

/// The text of the fixture of each place of a list.
pub open spec fn placed_fixtures(order: Seq<FixtureOrder>) -> Seq<Seq<char>> {
    order.map_values(|o: FixtureOrder| o.id@)
}

/// The chunks of the fixtures `order` in turn: one per fixture that
/// `fixtures` holds, with the fixture's number of LEDs.
pub open spec fn installation_chunks(order: Seq<Seq<char>>, fixtures: Table<Fixture>) -> Seq<
    ChunkView,
>
    decreases order.len(),
{
    if order.len() == 0 {
        Seq::empty()
    } else if fixtures.contains(order.last()) {
        installation_chunks(order.drop_last(), fixtures).push(
            (order.last(), fixtures.value_of(order.last()).spec_led_count()),
        )
    } else {
        installation_chunks(order.drop_last(), fixtures)
    }
}

/// The chunks of an installation are chunks of fixtures that `fixtures`
/// holds.
pub proof fn lemma_installation_chunks_of_fixtures(order: Seq<Seq<char>>, fixtures: Table<Fixture>)
    ensures
        crate::world::chunk::chunks_of_fixtures(installation_chunks(order, fixtures), fixtures),
    decreases order.len(),
{
    if order.len() > 0 {
        lemma_installation_chunks_of_fixtures(order.drop_last(), fixtures);
        let rest = installation_chunks(order.drop_last(), fixtures);
        let all = installation_chunks(order, fixtures);
        assert forall|i: int| 0 <= i < all.len() implies fixtures.contains((#[trigger] all[i]).0)
            && all[i].1 == fixtures.value_of(all[i].0).spec_led_count() by {
            if i < rest.len() {
                assert(all[i] == rest[i]);
            }
        }
    }
}

impl Installation {
    #[verifier::type_invariant]
    closed spec fn placements_hold(self) -> bool {
        self.fixtures.wf()
    }

    /// The text of the installation's identifier.
    pub closed spec fn spec_id(&self) -> Seq<char> {
        self.id@
    }

    /// The fixtures, in order.
    pub closed spec fn order(&self) -> Seq<Seq<char>> {
        fixture_keys(self.fixture_order@)
    }

    /// Where each fixture is placed.
    pub closed spec fn placements(&self) -> Table<Coord> {
        self.fixtures
    }

    /// The chunks of the installation in `fixtures`.
    pub open spec fn chunks(&self, fixtures: Table<Fixture>) -> Seq<ChunkView> {
        installation_chunks(self.order(), fixtures)
    }

    /// The installation `id`, without fixtures.
    pub fn new(id: InstallationId) -> (installation: Installation)
        ensures
            installation.spec_id() == id@,
            installation.order() == Seq::<Seq<char>>::empty(),
            installation.placements().keys().len() == 0,
    {
        let installation = Installation { id, fixtures: Table::new(), fixture_order: Vec::new() };
        assert(installation.order() =~= Seq::<Seq<char>>::empty());
        installation
    }

    /// The installation's identifier.
    pub fn id(&self) -> (id: &InstallationId)
        ensures
            id@ == self.spec_id(),
    {
        &self.id
    }

    /// Replaces the fixtures by those of `order`, in that order. A fixture
    /// listed more than once keeps every listing and the place of its last.
    pub fn set_fixtures(&mut self, order: Vec<FixtureOrder>)
        ensures
            final(self).spec_id() == old(self).spec_id(),
            final(self).order() == placed_fixtures(order@),
            final(self).placements().wf(),
            forall|k: Seq<char>| #[trigger]
                final(self).placements().contains(k) <==> placed_fixtures(order@).contains(k),
            forall|i: int|
                0 <= i < order@.len() && (forall|j: int|
                    i < j < order@.len() ==> order@[j].id@ != order@[i].id@)
                    ==> final(self).placements().value_of(#[trigger] order@[i].id@)
                    == order@[i].position,
    {
        let mut fixtures: Table<Coord> = Table::new();
        let mut fixture_order: Vec<FixtureId> = Vec::new();
        let n = order.len();
        let mut i: usize = 0;
        assert(fixture_keys(fixture_order@) =~= placed_fixtures(order@).subrange(0, 0));
        assert forall|k: Seq<char>| !fixtures.contains(k) by {
            if fixtures.contains(k) {
                fixtures.lemma_contains(k);
            }
        }
        while i < n
            invariant
                n == order@.len(),
                i <= n,
                fixtures.wf(),
                fixture_keys(fixture_order@) == placed_fixtures(order@).subrange(0, i as int),
                forall|k: Seq<char>| #[trigger]
                    fixtures.contains(k) <==> placed_fixtures(order@).subrange(
                        0,
                        i as int,
                    ).contains(k),
                forall|a: int|
                    0 <= a < i && (forall|j: int| a < j < i ==> order@[j].id@ != order@[a].id@)
                        ==> fixtures.value_of(#[trigger] order@[a].id@) == order@[a].position,
            decreases n - i,
        {
            let ghost before = fixtures;
            let ghost done = placed_fixtures(order@).subrange(0, i as int);
            let ghost next = placed_fixtures(order@).subrange(0, i + 1);
            let ghost listed = fixture_keys(fixture_order@);
            let place = &order[i];
            fixtures.insert(place.id.unprotect(), place.position);
            fixture_order.push(place.id.clone());
            proof {
                let key = place.id@;
                assert(placed_fixtures(order@)[i as int] == key);
                assert(next =~= done.push(key));
                assert(fixture_keys(fixture_order@) =~= listed.push(key));
                assert forall|k: Seq<char>| #[trigger]
                    fixtures.contains(k) <==> next.contains(k) by {
                    if k == key {
                        assert(next[i as int] == key);
                    } else {
                        assert(fixtures.contains(k) <==> before.contains(k));
                        if next.contains(k) {
                            let j = choose|j: int| 0 <= j < next.len() && next[j] == k;
                            assert(done[j] == k);
                        }
                        if done.contains(k) {
                            let j = choose|j: int| 0 <= j < done.len() && done[j] == k;
                            assert(next[j] == k);
                        }
                    }
                }
                assert forall|a: int|
                    0 <= a < i + 1 && (forall|j: int|
                        a < j < i + 1 ==> order@[j].id@ != order@[a].id@) implies fixtures.value_of(
                    #[trigger] order@[a].id@,
                ) == order@[a].position by {
                    if a < i {
                        assert(order@[i as int].id@ != order@[a].id@);
                        assert(done[a] == order@[a].id@);
                        assert(before.contains(order@[a].id@));
                        assert(forall|j: int| a < j < i ==> order@[j].id@ != order@[a].id@);
                    }
                }
            }
            i += 1;
        }
        assert(placed_fixtures(order@).subrange(0, n as int) =~= placed_fixtures(order@));
        self.fixtures = fixtures;
        self.fixture_order = fixture_order;
    }

    /// Where the fixture is placed, if it belongs to the installation.
    pub fn get_fixture_position(&self, fixture_id: &FixtureId) -> (position: Option<&Coord>)
        ensures
            position is Some <==> self.placements().contains(fixture_id@),
            position is Some ==> *position->0 == self.placements().value_of(fixture_id@),
    {
        proof {
            use_type_invariant(self);
        }
        self.fixtures.get(fixture_id.key())
    }

    /// The chunks of the installation: one per fixture of its order that
    /// `context` holds, with the fixture's number of LEDs.
    pub fn get_fixture_chunks(&self, context: &WorldContext) -> (chunks: Vec<(FixtureId, u32)>)
        requires
            context.wf(),
        ensures
            chunk_views(chunks@) == self.chunks(context.fixtures()),
    {
        let fixtures = context.fixture_table();
        let mut chunks: Vec<(FixtureId, u32)> = Vec::new();
        let n = self.fixture_order.len();
        let mut i: usize = 0;
        assert(self.order().subrange(0, 0) =~= Seq::<Seq<char>>::empty());
        assert(chunk_views(chunks@) =~= Seq::<ChunkView>::empty());
        while i < n
            invariant
                fixtures.wf(),
                n == self.fixture_order@.len(),
                i <= n,
                chunk_views(chunks@) == installation_chunks(
                    self.order().subrange(0, i as int),
                    *fixtures,
                ),
            decreases n - i,
        {
            let ghost before = chunk_views(chunks@);
            let fixture_id = &self.fixture_order[i];
            proof {
                assert(self.order()[i as int] == fixture_id@);
                assert(self.order().subrange(0, i + 1).drop_last() =~= self.order().subrange(
                    0,
                    i as int,
                ));
                assert(self.order().subrange(0, i + 1).last() == fixture_id@);
            }
            match fixtures.get(fixture_id.key()) {
                Some(fixture) => {
                    chunks.push((fixture_id.clone(), fixture.led_count()));
                    assert(chunk_views(chunks@) =~= before.push(
                        (fixture_id@, fixture.spec_led_count()),
                    ));
                },
                None => {},
            }
            i += 1;
        }
        assert(self.order().subrange(0, n as int) =~= self.order());
        chunks
    }

    /// The number of LEDs of the installation: those of all its chunks
    /// together, held at `u32::MAX` where there are more.
    pub fn led_count(&self, context: &WorldContext) -> (count: u32)
        requires
            context.wf(),
        ensures
            count == saturated(chunk_total(self.chunks(context.fixtures()))),
    {
        let chunks = self.get_fixture_chunks(context);
        total_of_chunks(&chunks)
    }

    /// The position of every LED of the installation: those of each chunk's
    /// fixture in turn.
    pub fn get_all_led_positions(&self, context: &WorldContext) -> (positions: Vec<Coord>)
        requires
            context.wf(),
        ensures
            positions@ == chunk_positions(self.chunks(context.fixtures()), context.fixtures()),
    {
        let chunks = self.get_fixture_chunks(context);
        positions_of_chunks(&chunks, context.fixture_table())
    }

    /// The position of LED `led` of the installation, counting through its
    /// fixtures in order; the origin where it has no such LED.
    pub fn get_led_position(&self, context: &WorldContext, led: u32) -> (position: Coord)
        requires
            context.wf(),
        ensures
            position == position_at(
                chunk_positions(self.chunks(context.fixtures()), context.fixtures()),
                led,
            ),
    {
        let positions = self.get_all_led_positions(context);
        if (led as usize) < positions.len() {
            positions[led as usize]
        } else {
            Coord::origin()
        }
    }
}

/// Position `led` of a run of positions; the origin beyond its end.
pub open spec fn position_at(positions: Seq<Coord>, led: u32) -> Coord {
    if led < positions.len() {
        positions[led as int]
    } else {
        Coord::spec_origin()
    }
}

impl Clone for Installation {
    fn clone(&self) -> (copy: Self)
        ensures
            copy.spec_id() == self.spec_id(),
            copy.order() == self.order(),
            copy.placements().keys() == self.placements().keys(),
            copy.placements().values() == self.placements().values(),
    {
        proof {
            use_type_invariant(self);
        }
        let mut fixture_order: Vec<FixtureId> = Vec::new();
        let n = self.fixture_order.len();
        let mut i: usize = 0;
        while i < n
            invariant
                n == self.fixture_order@.len(),
                i <= n,
                fixture_keys(fixture_order@) == fixture_keys(self.fixture_order@).subrange(
                    0,
                    i as int,
                ),
            decreases n - i,
        {
            let ghost before = fixture_keys(fixture_order@);
            fixture_order.push(self.fixture_order[i].clone());
            assert(fixture_keys(fixture_order@) =~= before.push(self.fixture_order@[i as int]@));
            assert(fixture_keys(self.fixture_order@).subrange(0, i + 1) =~= before.push(
                self.fixture_order@[i as int]@,
            ));
            i += 1;
        }
        assert(fixture_keys(self.fixture_order@).subrange(0, n as int) =~= fixture_keys(
            self.fixture_order@,
        ));
        Installation { id: self.id.clone(), fixtures: self.fixtures.copy(), fixture_order }
    }
}

} // verus!
