//! The world context: every fixture, installation and group, by identifier.

use crate::id::{FixtureId, GroupId, InstallationId};
use crate::table::Table;
use crate::world::chunk::{chunk_total, chunk_views, ChunkView};
use crate::world::fixture::Fixture;
use crate::world::group::{reaches_group, groups_reach, Group};
use crate::world::installation::Installation;
use crate::world::state::{has_target, target_chunks, WorldContextState};
use vstd::prelude::*;

verus! {

/// The fixtures, installations and groups that a world is made of.
#[derive(Debug)]
pub struct WorldContextCollection {
    pub fixtures: Table<Fixture>,
    pub installations: Table<Installation>,
    pub groups: Table<Group>,
}

impl WorldContextCollection {
    /// A world of nothing.
    pub fn new() -> (collection: WorldContextCollection)
        ensures
            collection.fixtures.wf(),
            collection.installations.wf(),
            collection.groups.wf(),
            collection.fixtures.keys().len() == 0,
            collection.installations.keys().len() == 0,
            collection.groups.keys().len() == 0,
    {
        WorldContextCollection {
            fixtures: Table::new(),
            installations: Table::new(),
            groups: Table::new(),
        }
    }
}

/// A fixture could not be added.
#[derive(Debug, Clone, Copy, PartialEq, Eq, Structural)]
pub enum WorldContextErrorAddFixture {
    FixtureExists,
}

/// A fixture could not be removed.
#[derive(Debug, Clone, Copy, PartialEq, Eq, Structural)]
pub enum WorldContextErrorRemoveFixture {
    FixtureDoesNotExist,
}

/// An installation could not be added.
#[derive(Debug, Clone, Copy, PartialEq, Eq, Structural)]
pub enum WorldContextErrorAddInstallation {
    InstallationExists,
}

/// An installation could not be removed.
#[derive(Debug, Clone, Copy, PartialEq, Eq, Structural)]
pub enum WorldContextErrorRemoveInstallation {
    InstallationDoesNotExist,
}

/// A group could not be added.
#[derive(Debug, Clone, Copy, PartialEq, Eq, Structural)]
pub enum WorldContextErrorAddGroup {
    GroupExists,
    /// The group would hold itself, directly or through other groups.
    GroupCycle,
}

/// A group could not be removed.
#[derive(Debug, Clone, Copy, PartialEq, Eq, Structural)]
pub enum WorldContextErrorRemoveGroup {
    GroupDoesNotExist,
}

/// A change of the world, for whoever listens.
#[derive(Debug)]
pub enum WorldContextEvent {
    FixtureAdded(FixtureId),
    FixtureRemoved(FixtureId),
    InstallationAdded(InstallationId),
    InstallationRemoved(InstallationId),
    GroupAdded(GroupId),
    GroupRemoved(GroupId),
}

/// The world: what exists, and a cache of what the pipeline needs to know
/// of it.
#[derive(Debug)]
pub struct WorldContext {
    collection: WorldContextCollection,
    led_position_cache: Option<WorldContextState>,
}

impl WorldContext {
    /// The fixtures, by identifier.
    pub closed spec fn fixtures(&self) -> Table<Fixture> {
        self.collection.fixtures
    }

    /// The installations, by identifier.
    pub closed spec fn installations(&self) -> Table<Installation> {
        self.collection.installations
    }

    /// The groups, by identifier.
    pub closed spec fn groups(&self) -> Table<Group> {
        self.collection.groups
    }

    /// The cached state, if there is one.
    pub closed spec fn cache(&self) -> Option<WorldContextState> {
        self.led_position_cache
    }

    /// The tables are well formed, everything is kept under its own
    /// identifier, and a cached state is that of the world as it is.
    pub open spec fn wf(&self) -> bool {
        &&& self.fixtures().wf()
        &&& self.installations().wf()
        &&& self.groups().wf()
        &&& forall|k: Seq<char>| #[trigger]
            self.fixtures().contains(k) ==> self.fixtures().value_of(k).spec_id() == k
                && self.fixtures().value_of(k).consistent()
        &&& forall|k: Seq<char>| #[trigger]
            self.installations().contains(k) ==> self.installations().value_of(k).spec_id() == k
        &&& forall|k: Seq<char>| #[trigger]
            self.groups().contains(k) ==> self.groups().value_of(k).spec_id() == k
        &&& self.cache() is Some ==> self.cache()->0.describes(
            self.fixtures(),
            self.installations(),
            self.groups(),
        )
    }

    /// Whether `key` names a fixture, an installation or a group.
    pub open spec fn has_target(&self, key: Seq<char>) -> bool {
        has_target(self.fixtures(), self.installations(), self.groups(), key)
    }

    /// The chunks of the target `key`.
    pub open spec fn target_chunks(&self, key: Seq<char>) -> Seq<ChunkView> {
        target_chunks(self.fixtures(), self.installations(), self.groups(), key)
    }

    /// The world made of `collection`, without a cached state.
    pub fn new(collection: WorldContextCollection) -> (context: WorldContext)
        ensures
            context.fixtures() == collection.fixtures,
            context.installations() == collection.installations,
            context.groups() == collection.groups,
            context.cache() is None,
    {
        WorldContext { collection, led_position_cache: None }
    }

    /// An empty world.
    pub fn empty() -> (context: WorldContext)
        ensures
            context.wf(),
            context.fixtures().keys().len() == 0,
            context.installations().keys().len() == 0,
            context.groups().keys().len() == 0,
            context.cache() is None,
    {
        let context = WorldContext {
            collection: WorldContextCollection::new(),
            led_position_cache: None,
        };
        proof {
            assert forall|k: Seq<char>| !context.fixtures().contains(k) by {
                if context.fixtures().contains(k) {
                    context.fixtures().lemma_contains(k);
                }
            }
            assert forall|k: Seq<char>| !context.installations().contains(k) by {
                if context.installations().contains(k) {
                    context.installations().lemma_contains(k);
                }
            }
            assert forall|k: Seq<char>| !context.groups().contains(k) by {
                if context.groups().contains(k) {
                    context.groups().lemma_contains(k);
                }
            }
        }
        context
    }

    /// The fixtures, by identifier.
    pub fn fixture_table(&self) -> (table: &Table<Fixture>)
        ensures
            *table == self.fixtures(),
    {
        &self.collection.fixtures
    }

    /// The installations, by identifier.
    pub fn installation_table(&self) -> (table: &Table<Installation>)
        ensures
            *table == self.installations(),
    {
        &self.collection.installations
    }

    /// The groups, by identifier.
    pub fn group_table(&self) -> (table: &Table<Group>)
        ensures
            *table == self.groups(),
    {
        &self.collection.groups
    }

    /// Adds `fixture` under its identifier and drops the cached state;
    /// fails, changing nothing, where a fixture has that identifier already.
    pub fn add_fixture(&mut self, fixture: Fixture) -> (result: Result<
        WorldContextEvent,
        WorldContextErrorAddFixture,
    >)
        requires
            old(self).wf(),
        ensures
            final(self).wf(),
            final(self).installations() == old(self).installations(),
            final(self).groups() == old(self).groups(),
            old(self).fixtures().contains(fixture.spec_id()) ==> result == Err::<
                WorldContextEvent,
                WorldContextErrorAddFixture,
            >(WorldContextErrorAddFixture::FixtureExists) && *final(self) == *old(self),
            !old(self).fixtures().contains(fixture.spec_id()) ==> (result matches Ok(
                WorldContextEvent::FixtureAdded(id),
            ) && id@ == fixture.spec_id()) && final(self).cache() is None && old(self).fixtures().stored(&final(self).fixtures(), fixture.spec_id()) && final(self).fixtures().value_of(fixture.spec_id()) == fixture,
    {
        let id = fixture.id().clone();
        if self.collection.fixtures.contains_key(id.key()) {
            return Err(WorldContextErrorAddFixture::FixtureExists);
        }
        let _leds = fixture.led_count();
        self.collection.fixtures.insert(id.unprotect(), fixture);
        self.on_state_changed();
        Ok(WorldContextEvent::FixtureAdded(id))
    }

    /// Removes the fixture `fixture_id` and drops the cached state; fails,
    /// changing nothing, where there is no such fixture.
    pub fn remove_fixture(&mut self, fixture_id: &FixtureId) -> (result: Result<
        WorldContextEvent,
        WorldContextErrorRemoveFixture,
    >)
        requires
            old(self).wf(),
        ensures
            final(self).wf(),
            final(self).installations() == old(self).installations(),
            final(self).groups() == old(self).groups(),
            !old(self).fixtures().contains(fixture_id@) ==> result == Err::<
                WorldContextEvent,
                WorldContextErrorRemoveFixture,
            >(WorldContextErrorRemoveFixture::FixtureDoesNotExist) && *final(self) == *old(self),
            old(self).fixtures().contains(fixture_id@) ==> (result matches Ok(
                WorldContextEvent::FixtureRemoved(id),
            ) && id@ == fixture_id@) && final(self).cache() is None && old(self).fixtures().dropped(&final(self).fixtures(), fixture_id@),
    {
        if !self.collection.fixtures.contains_key(fixture_id.key()) {
            return Err(WorldContextErrorRemoveFixture::FixtureDoesNotExist);
        }
        let _gone = self.collection.fixtures.remove(fixture_id.key());
        self.on_state_changed();
        Ok(WorldContextEvent::FixtureRemoved(fixture_id.clone()))
    }

    /// The fixture `fixture_id`, if there is one.
    pub fn get_fixture(&self, fixture_id: &FixtureId) -> (fixture: Option<Fixture>)
        requires
            self.wf(),
        ensures
            fixture is Some <==> self.fixtures().contains(fixture_id@),
            fixture is Some ==> fixture->0.spec_id() == fixture_id@ && fixture->0.spec_led_count()
                == self.fixtures().value_of(fixture_id@).spec_led_count()
                && fixture->0.positions() == self.fixtures().value_of(fixture_id@).positions(),
    {
        match self.collection.fixtures.get(fixture_id.key()) {
            Some(fixture) => Some(fixture.clone()),
            None => None,
        }
    }

    /// Adds `installation` under its identifier and drops the cached state;
    /// fails, changing nothing, where an installation has that identifier
    /// already.
    pub fn add_installation(&mut self, installation: Installation) -> (result: Result<
        WorldContextEvent,
        WorldContextErrorAddInstallation,
    >)
        requires
            old(self).wf(),
        ensures
            final(self).wf(),
            final(self).fixtures() == old(self).fixtures(),
            final(self).groups() == old(self).groups(),
            old(self).installations().contains(installation.spec_id()) ==> result == Err::<
                WorldContextEvent,
                WorldContextErrorAddInstallation,
            >(WorldContextErrorAddInstallation::InstallationExists) && *final(self) == *old(self),
            !old(self).installations().contains(installation.spec_id()) ==> (result matches Ok(
                WorldContextEvent::InstallationAdded(id),
            ) && id@ == installation.spec_id()) && final(self).cache() is None && old(self).installations().stored(&final(self).installations(), installation.spec_id())
                && final(self).installations().value_of(installation.spec_id()) == installation,
    {
        let id = installation.id().clone();
        if self.collection.installations.contains_key(id.key()) {
            return Err(WorldContextErrorAddInstallation::InstallationExists);
        }
        self.collection.installations.insert(id.unprotect(), installation);
        self.on_state_changed();
        Ok(WorldContextEvent::InstallationAdded(id))
    }

    /// Removes the installation `installation_id` and drops the cached
    /// state; fails, changing nothing, where there is no such installation.
    pub fn remove_installation(&mut self, installation_id: &InstallationId) -> (result: Result<
        WorldContextEvent,
        WorldContextErrorRemoveInstallation,
    >)
        requires
            old(self).wf(),
        ensures
            final(self).wf(),
            final(self).fixtures() == old(self).fixtures(),
            final(self).groups() == old(self).groups(),
            !old(self).installations().contains(installation_id@) ==> result == Err::<
                WorldContextEvent,
                WorldContextErrorRemoveInstallation,
            >(WorldContextErrorRemoveInstallation::InstallationDoesNotExist) && *final(self)
                == *old(self),
            old(self).installations().contains(installation_id@) ==> (result matches Ok(
                WorldContextEvent::InstallationRemoved(id),
            ) && id@ == installation_id@) && final(self).cache() is None && old(self).installations().dropped(&final(self).installations(), installation_id@),
    {
        if !self.collection.installations.contains_key(installation_id.key()) {
            return Err(WorldContextErrorRemoveInstallation::InstallationDoesNotExist);
        }
        let _gone = self.collection.installations.remove(installation_id.key());
        self.on_state_changed();
        Ok(WorldContextEvent::InstallationRemoved(installation_id.clone()))
    }

    /// The installation `installation_id`, if there is one.
    pub fn get_installation(&self, installation_id: &InstallationId) -> (installation: Option<
        Installation,
    >)
        requires
            self.wf(),
        ensures
            installation is Some <==> self.installations().contains(installation_id@),
            installation is Some ==> installation->0.spec_id() == installation_id@
                && installation->0.order() == self.installations().value_of(
                installation_id@,
            ).order(),
    {
        match self.collection.installations.get(installation_id.key()) {
            Some(installation) => Some(installation.clone()),
            None => None,
        }
    }

    /// Whether adding `group` would make a group hold itself: one of its
    /// groups, or a group within them, is `group`. Groups are followed as
    /// deep as there are groups in the world.
    pub open spec fn would_cycle(&self, group: Group) -> bool {
        groups_reach(
            group.group_order(),
            self.groups(),
            group.spec_id(),
            self.groups().keys().len(),
        )
    }

    /// Adds `group` under its identifier and drops the cached state; fails,
    /// changing nothing, where a group has that identifier already, or where
    /// the group would then hold itself.
    pub fn add_group(&mut self, group: Group) -> (result: Result<
        WorldContextEvent,
        WorldContextErrorAddGroup,
    >)
        requires
            old(self).wf(),
        ensures
            final(self).wf(),
            final(self).fixtures() == old(self).fixtures(),
            final(self).installations() == old(self).installations(),
            old(self).groups().contains(group.spec_id()) ==> result == Err::<
                WorldContextEvent,
                WorldContextErrorAddGroup,
            >(WorldContextErrorAddGroup::GroupExists) && *final(self) == *old(self),
            !old(self).groups().contains(group.spec_id()) && old(self).would_cycle(group)
                ==> result == Err::<WorldContextEvent, WorldContextErrorAddGroup>(
                WorldContextErrorAddGroup::GroupCycle,
            ) && *final(self) == *old(self),
            !old(self).groups().contains(group.spec_id()) && !old(self).would_cycle(group) ==> (
            result matches Ok(WorldContextEvent::GroupAdded(id)) && id@ == group.spec_id())
                && final(self).cache() is None && old(self).groups().stored(
                &final(self).groups(),
                group.spec_id(),
            ) && final(self).groups().value_of(group.spec_id()) == group,
    {
        let id = group.id().clone();
        if self.collection.groups.contains_key(id.key()) {
            return Err(WorldContextErrorAddGroup::GroupExists);
        }
        let depth = self.collection.groups.len();
        if reaches_group(group.member_groups(), self, &id, depth) {
            return Err(WorldContextErrorAddGroup::GroupCycle);
        }
        self.collection.groups.insert(id.unprotect(), group);
        self.on_state_changed();
        Ok(WorldContextEvent::GroupAdded(id))
    }

    /// Removes the group `group_id` and drops the cached state; fails,
    /// changing nothing, where there is no such group.
    pub fn remove_group(&mut self, group_id: &GroupId) -> (result: Result<
        WorldContextEvent,
        WorldContextErrorRemoveGroup,
    >)
        requires
            old(self).wf(),
        ensures
            final(self).wf(),
            final(self).fixtures() == old(self).fixtures(),
            final(self).installations() == old(self).installations(),
            !old(self).groups().contains(group_id@) ==> result == Err::<
                WorldContextEvent,
                WorldContextErrorRemoveGroup,
            >(WorldContextErrorRemoveGroup::GroupDoesNotExist) && *final(self) == *old(self),
            old(self).groups().contains(group_id@) ==> (result matches Ok(
                WorldContextEvent::GroupRemoved(id),
            ) && id@ == group_id@) && final(self).cache() is None && old(self).groups().dropped(
                &final(self).groups(),
                group_id@,
            ),
    {
        if !self.collection.groups.contains_key(group_id.key()) {
            return Err(WorldContextErrorRemoveGroup::GroupDoesNotExist);
        }
        let _gone = self.collection.groups.remove(group_id.key());
        self.on_state_changed();
        Ok(WorldContextEvent::GroupRemoved(group_id.clone()))
    }

    /// The group `group_id`, if there is one.
    pub fn get_group(&self, group_id: &GroupId) -> (group: Option<Group>)
        requires
            self.wf(),
        ensures
            group is Some <==> self.groups().contains(group_id@),
            group is Some ==> group->0.spec_id() == group_id@ && group->0.group_order()
                == self.groups().value_of(group_id@).group_order()
                && group->0.installation_order() == self.groups().value_of(
                group_id@,
            ).installation_order(),
    {
        match self.collection.groups.get(group_id.key()) {
            Some(group) => Some(group.clone()),
            None => None,
        }
    }

    /// The identifiers of the fixtures, in the order they were added.
    pub fn get_registered_fixtures(&self) -> (ids: Vec<FixtureId>)
        requires
            self.wf(),
        ensures
            crate::world::installation::fixture_keys(ids@) == self.fixtures().keys(),
    {
        let table = &self.collection.fixtures;
        let mut ids: Vec<FixtureId> = Vec::new();
        let n = table.len();
        let mut i: usize = 0;
        while i < n
            invariant
                table.wf(),
                n == table.keys().len(),
                i <= n,
                crate::world::installation::fixture_keys(ids@) == table.keys().subrange(
                    0,
                    i as int,
                ),
            decreases n - i,
        {
            let ghost before = crate::world::installation::fixture_keys(ids@);
            ids.push(FixtureId::new_from(table.key_at(i).clone()));
            assert(crate::world::installation::fixture_keys(ids@) =~= before.push(
                table.keys()[i as int],
            ));
            assert(table.keys().subrange(0, i + 1) =~= before.push(table.keys()[i as int]));
            i += 1;
        }
        assert(table.keys().subrange(0, n as int) =~= table.keys());
        ids
    }

    /// The identifiers of the installations, in the order they were added.
    pub fn get_registered_installations(&self) -> (ids: Vec<InstallationId>)
        requires
            self.wf(),
        ensures
            crate::world::group::installation_keys(ids@) == self.installations().keys(),
    {
        let table = &self.collection.installations;
        let mut ids: Vec<InstallationId> = Vec::new();
        let n = table.len();
        let mut i: usize = 0;
        while i < n
            invariant
                table.wf(),
                n == table.keys().len(),
                i <= n,
                crate::world::group::installation_keys(ids@) == table.keys().subrange(0, i as int),
            decreases n - i,
        {
            let ghost before = crate::world::group::installation_keys(ids@);
            ids.push(InstallationId::new_from(table.key_at(i).clone()));
            assert(crate::world::group::installation_keys(ids@) =~= before.push(
                table.keys()[i as int],
            ));
            assert(table.keys().subrange(0, i + 1) =~= before.push(table.keys()[i as int]));
            i += 1;
        }
        assert(table.keys().subrange(0, n as int) =~= table.keys());
        ids
    }

    /// The identifiers of the groups, in the order they were added.
    pub fn get_registered_groups(&self) -> (ids: Vec<GroupId>)
        requires
            self.wf(),
        ensures
            crate::world::group::group_keys(ids@) == self.groups().keys(),
    {
        let table = &self.collection.groups;
        let mut ids: Vec<GroupId> = Vec::new();
        let n = table.len();
        let mut i: usize = 0;
        while i < n
            invariant
                table.wf(),
                n == table.keys().len(),
                i <= n,
                crate::world::group::group_keys(ids@) == table.keys().subrange(0, i as int),
            decreases n - i,
        {
            let ghost before = crate::world::group::group_keys(ids@);
            ids.push(GroupId::new_from(table.key_at(i).clone()));
            assert(crate::world::group::group_keys(ids@) =~= before.push(table.keys()[i as int]));
            assert(table.keys().subrange(0, i + 1) =~= before.push(table.keys()[i as int]));
            i += 1;
        }
        assert(table.keys().subrange(0, n as int) =~= table.keys());
        ids
    }

    /// Whether `key` is among the first `i` fixtures, `j` installations or
    /// `l` groups.
    pub open spec fn in_scope(&self, i: int, j: int, l: int, key: Seq<char>) -> bool {
        ||| self.fixtures().keys().subrange(0, i).contains(key)
        ||| self.installations().keys().subrange(0, j).contains(key)
        ||| self.groups().keys().subrange(0, l).contains(key)
    }

    /// The chunks of the target `key` among all fixtures, the first `j`
    /// installations and the first `l` groups.
    pub open spec fn scoped_chunks(&self, j: int, l: int, key: Seq<char>) -> Seq<ChunkView> {
        if self.groups().keys().subrange(0, l).contains(key) {
            self.groups().value_of(key).chunks_in(*self)
        } else if self.installations().keys().subrange(0, j).contains(key) {
            self.installations().value_of(key).chunks(self.fixtures())
        } else {
            seq![(key, self.fixtures().value_of(key).spec_led_count())]
        }
    }

    /// `state` is that of the first `i` fixtures, `j` installations and `l`
    /// groups.
    pub open spec fn covers(&self, state: WorldContextState, i: int, j: int, l: int) -> bool {
        &&& state.wf()
        &&& forall|k: Seq<char>|
            self.in_scope(i, j, l, k) ==> #[trigger] state.records(
                k,
                self.scoped_chunks(j, l, k),
                self.fixtures(),
            )
        &&& forall|k: Seq<char>| !self.in_scope(i, j, l, k) ==> #[trigger] state.lacks(k)
    }

    /// The state of the world as it is: for every fixture, installation and
    /// group, its chunks, its number of LEDs and the positions of its LEDs.
    /// The state is built when the world has changed since it was last read,
    /// and kept for the next read otherwise.
    pub fn get_world_context_state(&mut self) -> (state: WorldContextState)
        requires
            old(self).wf(),
        ensures
            final(self).wf(),
            final(self).fixtures() == old(self).fixtures(),
            final(self).installations() == old(self).installations(),
            final(self).groups() == old(self).groups(),
            final(self).cache() is Some,
            state.describes(old(self).fixtures(), old(self).installations(), old(self).groups()),
            forall|k: Seq<char>| state.num_leds.contains(k) <==> state.led_positions.contains(k),
            forall|k: Seq<char>| state.num_leds.contains(k) <==> old(self).has_target(k),
            forall|k: Seq<char>|
                old(self).has_target(k) && chunk_total(old(self).target_chunks(k)) <= u32::MAX
                    ==> (#[trigger] state.led_positions.value_of(k))@.len()
                    == state.num_leds.value_of(k),
    {
        match &self.led_position_cache {
            Some(cached) => {
                let state = cached.duplicate();
                proof {
                    crate::world::state::lemma_described_state_is_aligned(
                        state,
                        self.fixtures(),
                        self.installations(),
                        self.groups(),
                    );
                    self.lemma_positions_match(state);
                }
                return state;
            },
            None => {},
        }
        let state = self.materialize();
        self.led_position_cache = Some(state.duplicate());
        proof {
            crate::world::state::lemma_described_state_is_aligned(
                state,
                self.fixtures(),
                self.installations(),
                self.groups(),
            );
            self.lemma_positions_match(state);
        }
        state
    }

    /// A state of this world has one position per LED for every target whose
    /// LEDs can be counted.
    pub proof fn lemma_positions_match(&self, state: WorldContextState)
        requires
            self.wf(),
            state.describes(self.fixtures(), self.installations(), self.groups()),
        ensures
            forall|k: Seq<char>|
                self.has_target(k) && chunk_total(self.target_chunks(k)) <= u32::MAX ==> (
                #[trigger] state.led_positions.value_of(k))@.len() == state.num_leds.value_of(k),
    {
        assert forall|k: Seq<char>|
            self.has_target(k) && chunk_total(self.target_chunks(k)) <= u32::MAX implies (
        #[trigger] state.led_positions.value_of(k))@.len() == state.num_leds.value_of(k) by {
            crate::world::state::lemma_state_positions_match_counts(
                state,
                self.fixtures(),
                self.installations(),
                self.groups(),
                k,
            );
        }
    }

    /// Builds the state of the world as it is.
    pub fn materialize(&self) -> (state: WorldContextState)
        requires
            self.wf(),
        ensures
            state.describes(self.fixtures(), self.installations(), self.groups()),
    {
        let mut state = WorldContextState::new();
        let fixtures = &self.collection.fixtures;
        let installations = &self.collection.installations;
        let groups = &self.collection.groups;
        let nf = fixtures.len();
        let mut i: usize = 0;
        proof {
            assert forall|k: Seq<char>| !self.in_scope(0, 0, 0, k) by {}
        }
        while i < nf
            invariant
                self.wf(),
                *fixtures == self.fixtures(),
                nf == fixtures.keys().len(),
                i <= nf,
                self.covers(state, i as int, 0, 0),
            decreases nf - i,
        {
            let key = fixtures.key_at(i);
            let fixture = fixtures.value_at(i);
            let mut chunks: Vec<(FixtureId, u32)> = Vec::new();
            chunks.push((FixtureId::new_from(key.clone()), fixture.led_count()));
            let ghost before = state;
            proof {
                fixtures.lemma_index_of(i as int);
                assert(chunk_views(chunks@) =~= seq![(key@, fixture.spec_led_count())]);
            }
            state.record(key, chunks, fixtures);
            proof {
                assert forall|k: Seq<char>| self.in_scope(i + 1, 0, 0, k) implies #[trigger] state.records(
                    k,
                    self.scoped_chunks(0, 0, k),
                    self.fixtures(),
                ) by {
                    crate::table::lemma_prefix_contains(fixtures.keys(), i as int, k);
                    if k != key@ {
                        assert(self.in_scope(i as int, 0, 0, k));
                        assert(before.records(k, self.scoped_chunks(0, 0, k), self.fixtures()));
                    }
                }
                assert forall|k: Seq<char>| !self.in_scope(i + 1, 0, 0, k) implies #[trigger] state.lacks(
                    k,
                ) by {
                    crate::table::lemma_prefix_contains(fixtures.keys(), i as int, k);
                    assert(!self.in_scope(i as int, 0, 0, k));
                    assert(before.lacks(k));
                }
            }
            i += 1;
        }
        let ni = installations.len();
        let mut j: usize = 0;
        while j < ni
            invariant
                self.wf(),
                *fixtures == self.fixtures(),
                *installations == self.installations(),
                nf == fixtures.keys().len(),
                ni == installations.keys().len(),
                j <= ni,
                self.covers(state, nf as int, j as int, 0),
            decreases ni - j,
        {
            let key = installations.key_at(j);
            let installation = installations.value_at(j);
            let chunks = installation.get_fixture_chunks(self);
            let ghost before = state;
            proof {
                installations.lemma_index_of(j as int);
            }
            state.record(key, chunks, fixtures);
            proof {
                assert forall|k: Seq<char>| self.in_scope(nf as int, j + 1, 0, k) implies #[trigger] state.records(
                    k,
                    self.scoped_chunks(j + 1, 0, k),
                    self.fixtures(),
                ) by {
                    crate::table::lemma_prefix_contains(installations.keys(), j as int, k);
                    if k != key@ {
                        assert(self.in_scope(nf as int, j as int, 0, k));
                        assert(self.scoped_chunks(j + 1, 0, k) == self.scoped_chunks(
                            j as int,
                            0,
                            k,
                        ));
                        assert(before.records(
                            k,
                            self.scoped_chunks(j as int, 0, k),
                            self.fixtures(),
                        ));
                    }
                }
                assert forall|k: Seq<char>| !self.in_scope(nf as int, j + 1, 0, k) implies #[trigger] state.lacks(
                    k,
                ) by {
                    crate::table::lemma_prefix_contains(installations.keys(), j as int, k);
                    assert(!self.in_scope(nf as int, j as int, 0, k));
                    assert(before.lacks(k));
                }
            }
            j += 1;
        }
        let ng = groups.len();
        let mut l: usize = 0;
        while l < ng
            invariant
                self.wf(),
                *fixtures == self.fixtures(),
                *installations == self.installations(),
                *groups == self.groups(),
                nf == fixtures.keys().len(),
                ni == installations.keys().len(),
                ng == groups.keys().len(),
                l <= ng,
                self.covers(state, nf as int, ni as int, l as int),
            decreases ng - l,
        {
            let key = groups.key_at(l);
            let group = groups.value_at(l);
            let chunks = group.get_fixture_chunks(self);
            let ghost before = state;
            proof {
                groups.lemma_index_of(l as int);
            }
            state.record(key, chunks, fixtures);
            proof {
                assert forall|k: Seq<char>| self.in_scope(nf as int, ni as int, l + 1, k) implies #[trigger] state.records(
                    k,
                    self.scoped_chunks(ni as int, l + 1, k),
                    self.fixtures(),
                ) by {
                    crate::table::lemma_prefix_contains(groups.keys(), l as int, k);
                    if k != key@ {
                        assert(self.in_scope(nf as int, ni as int, l as int, k));
                        assert(self.scoped_chunks(ni as int, l + 1, k) == self.scoped_chunks(
                            ni as int,
                            l as int,
                            k,
                        ));
                        assert(before.records(
                            k,
                            self.scoped_chunks(ni as int, l as int, k),
                            self.fixtures(),
                        ));
                    }
                }
                assert forall|k: Seq<char>| !self.in_scope(nf as int, ni as int, l + 1, k) implies #[trigger] state.lacks(
                    k,
                ) by {
                    crate::table::lemma_prefix_contains(groups.keys(), l as int, k);
                    assert(!self.in_scope(nf as int, ni as int, l as int, k));
                    assert(before.lacks(k));
                }
            }
            l += 1;
        }
        proof {
            assert(fixtures.keys().subrange(0, nf as int) =~= fixtures.keys());
            assert(installations.keys().subrange(0, ni as int) =~= installations.keys());
            assert(groups.keys().subrange(0, ng as int) =~= groups.keys());
            assert forall|k: Seq<char>|
                has_target(self.fixtures(), self.installations(), self.groups(), k) implies #[trigger] state.records(
                k,
                target_chunks(self.fixtures(), self.installations(), self.groups(), k),
                self.fixtures(),
            ) by {
                assert(self.in_scope(nf as int, ni as int, ng as int, k));
                assert(self.scoped_chunks(ni as int, ng as int, k) == target_chunks(
                    self.fixtures(),
                    self.installations(),
                    self.groups(),
                    k,
                ));
                assert(state.records(
                    k,
                    self.scoped_chunks(ni as int, ng as int, k),
                    self.fixtures(),
                ));
            }
            assert forall|k: Seq<char>|
                !has_target(
                    self.fixtures(),
                    self.installations(),
                    self.groups(),
                    k,
                ) implies #[trigger] state.lacks(k) by {
                assert(!self.in_scope(nf as int, ni as int, ng as int, k));
            }
        }
        state
    }

    /// Drops the cached state, so that the next read of the state builds it
    /// from the world as it then is.
    fn on_state_changed(&mut self)
        ensures
            final(self).fixtures() == old(self).fixtures(),
            final(self).installations() == old(self).installations(),
            final(self).groups() == old(self).groups(),
            final(self).cache() is None,
    {
        self.led_position_cache = None;
    }
}

} // verus!
