//! Groups: installations and other groups, in a fixed order.
//!
//! A group's LEDs are those of its groups, in order, followed by those of
//! its installations, in order. Groups may hold groups but never, directly
//! or through others, themselves: a group is followed at most as deep as
//! there are groups in the world.

use crate::id::{FixtureId, GroupId, InstallationId};
use crate::table::Table;
use crate::world::chunk::{
    append_chunks, chunk_positions, chunk_total, chunk_views, positions_of_chunks, saturated,
    total_of_chunks, ChunkView,
};
use crate::world::context::WorldContext;
use crate::world::fixture::Fixture;
use crate::world::installation::{position_at, Installation};
use crate::world::Coord;
use vstd::prelude::*;

verus! {

/// An ordered sequence of groups and of installations, each placed
/// somewhere.
#[derive(Debug)]
pub struct Group {
    id: GroupId,
    installations: Table<Coord>,
    installation_order: Vec<InstallationId>,
    groups: Table<Coord>,
    group_order: Vec<GroupId>,
}

/// What a group holds.
#[derive(Debug)]
pub struct GroupProps {
    pub installations: Table<Coord>,
    pub installation_order: Vec<InstallationId>,
    pub groups: Table<Coord>,
    pub group_order: Vec<GroupId>,
}

/// An installation's place in a group.
#[derive(Debug)]
pub struct InstallationOrder {
    pub id: InstallationId,
    pub position: Coord,
}

/// A group's place in a group.
#[derive(Debug)]
pub struct GroupOrder {
    pub id: GroupId,
    pub position: Coord,
}

/// The text of each identifier of a list.
pub open spec fn installation_keys(ids: Seq<InstallationId>) -> Seq<Seq<char>> {
    ids.map_values(|id: InstallationId| id@)
}

/// The text of each identifier of a list.
pub open spec fn group_keys(ids: Seq<GroupId>) -> Seq<Seq<char>> {
    ids.map_values(|id: GroupId| id@)
}

/// The text of the installation of each place of a list.
pub open spec fn placed_installations(order: Seq<InstallationOrder>) -> Seq<Seq<char>> {
    order.map_values(|o: InstallationOrder| o.id@)
}

/// The text of the group of each place of a list.
pub open spec fn placed_groups(order: Seq<GroupOrder>) -> Seq<Seq<char>> {
    order.map_values(|o: GroupOrder| o.id@)
}

/// The chunks of the installations `order` in turn; an installation that
/// `installations` does not hold has none.
pub open spec fn installations_chunks(
    order: Seq<Seq<char>>,
    installations: Table<Installation>,
    fixtures: Table<Fixture>,
) -> Seq<ChunkView>
    decreases order.len(),
{
    if order.len() == 0 {
        Seq::empty()
    } else if installations.contains(order.last()) {
        installations_chunks(order.drop_last(), installations, fixtures)
            + installations.value_of(order.last()).chunks(fixtures)
    } else {
        installations_chunks(order.drop_last(), installations, fixtures)
    }
}

/// The chunks of the groups `order` in turn, following groups within groups
/// `depth` deep; a group that `groups` does not hold has none.
pub open spec fn groups_chunks(
    order: Seq<Seq<char>>,
    groups: Table<Group>,
    installations: Table<Installation>,
    fixtures: Table<Fixture>,
    depth: nat,
) -> Seq<ChunkView>
    decreases depth, order.len(),
{
    if order.len() == 0 {
        Seq::empty()
    } else if depth > 0 && groups.contains(order.last()) {
        groups_chunks(order.drop_last(), groups, installations, fixtures, depth) + (groups_chunks(
            groups.value_of(order.last()).group_order(),
            groups,
            installations,
            fixtures,
            (depth - 1) as nat,
        ) + installations_chunks(
            groups.value_of(order.last()).installation_order(),
            installations,
            fixtures,
        ))
    } else {
        groups_chunks(order.drop_last(), groups, installations, fixtures, depth)
    }
}

/// The chunks of installations are chunks of fixtures that `fixtures` holds.
pub proof fn lemma_installations_chunks_of_fixtures(
    order: Seq<Seq<char>>,
    installations: Table<Installation>,
    fixtures: Table<Fixture>,
)
    ensures
        crate::world::chunk::chunks_of_fixtures(
            installations_chunks(order, installations, fixtures),
            fixtures,
        ),
    decreases order.len(),
{
    if order.len() > 0 {
        lemma_installations_chunks_of_fixtures(order.drop_last(), installations, fixtures);
        if installations.contains(order.last()) {
            crate::world::installation::lemma_installation_chunks_of_fixtures(
                installations.value_of(order.last()).order(),
                fixtures,
            );
            crate::world::chunk::lemma_chunks_of_fixtures_add(
                installations_chunks(order.drop_last(), installations, fixtures),
                installations.value_of(order.last()).chunks(fixtures),
                fixtures,
            );
        }
    }
}

/// The chunks of groups are chunks of fixtures that `fixtures` holds.
pub proof fn lemma_groups_chunks_of_fixtures(
    order: Seq<Seq<char>>,
    groups: Table<Group>,
    installations: Table<Installation>,
    fixtures: Table<Fixture>,
    depth: nat,
)
    ensures
        crate::world::chunk::chunks_of_fixtures(
            groups_chunks(order, groups, installations, fixtures, depth),
            fixtures,
        ),
    decreases depth, order.len(),
{
    if order.len() > 0 {
        lemma_groups_chunks_of_fixtures(order.drop_last(), groups, installations, fixtures, depth);
        if depth > 0 && groups.contains(order.last()) {
            let group = groups.value_of(order.last());
            lemma_groups_chunks_of_fixtures(
                group.group_order(),
                groups,
                installations,
                fixtures,
                (depth - 1) as nat,
            );
            lemma_installations_chunks_of_fixtures(
                group.installation_order(),
                installations,
                fixtures,
            );
            let within = groups_chunks(
                group.group_order(),
                groups,
                installations,
                fixtures,
                (depth - 1) as nat,
            );
            let own = installations_chunks(group.installation_order(), installations, fixtures);
            crate::world::chunk::lemma_chunks_of_fixtures_add(within, own, fixtures);
            crate::world::chunk::lemma_chunks_of_fixtures_add(
                groups_chunks(order.drop_last(), groups, installations, fixtures, depth),
                within + own,
                fixtures,
            );
        }
    }
}

/// Whether one of the groups `order`, or a group within them at most `depth`
/// deep, is `target`.
pub open spec fn groups_reach(
    order: Seq<Seq<char>>,
    groups: Table<Group>,
    target: Seq<char>,
    depth: nat,
) -> bool
    decreases depth, order.len(),
{
    if order.len() == 0 {
        false
    } else {
        ||| groups_reach(order.drop_last(), groups, target, depth)
        ||| order.last() == target
        ||| (depth > 0 && groups.contains(order.last()) && groups_reach(
            groups.value_of(order.last()).group_order(),
            groups,
            target,
            (depth - 1) as nat,
        ))
    }
}

impl Group {
    #[verifier::type_invariant]
    closed spec fn placements_hold(self) -> bool {
        self.installations.wf() && self.groups.wf()
    }

    /// The text of the group's identifier.
    pub closed spec fn spec_id(&self) -> Seq<char> {
        self.id@
    }

    /// The installations, in order.
    pub closed spec fn installation_order(&self) -> Seq<Seq<char>> {
        installation_keys(self.installation_order@)
    }

    /// The groups, in order.
    pub closed spec fn group_order(&self) -> Seq<Seq<char>> {
        group_keys(self.group_order@)
    }

    /// Where each installation is placed.
    pub closed spec fn installation_placements(&self) -> Table<Coord> {
        self.installations
    }

    /// Where each group is placed.
    pub closed spec fn group_placements(&self) -> Table<Coord> {
        self.groups
    }

    /// The chunks of the group: those of its groups, then those of its
    /// installations.
    pub open spec fn chunks(
        &self,
        groups: Table<Group>,
        installations: Table<Installation>,
        fixtures: Table<Fixture>,
        depth: nat,
    ) -> Seq<ChunkView> {
        groups_chunks(self.group_order(), groups, installations, fixtures, depth)
            + installations_chunks(self.installation_order(), installations, fixtures)
    }

    /// The chunks of the group in the world `context`.
    pub open spec fn chunks_in(&self, context: WorldContext) -> Seq<ChunkView> {
        self.chunks(
            context.groups(),
            context.installations(),
            context.fixtures(),
            context.groups().keys().len(),
        )
    }

    /// The group `id`, without members.
    pub fn new(id: GroupId) -> (group: Group)
        ensures
            group.spec_id() == id@,
            group.installation_order() == Seq::<Seq<char>>::empty(),
            group.group_order() == Seq::<Seq<char>>::empty(),
    {
        let group = Group {
            id,
            installations: Table::new(),
            installation_order: Vec::new(),
            groups: Table::new(),
            group_order: Vec::new(),
        };
        assert(group.installation_order() =~= Seq::<Seq<char>>::empty());
        assert(group.group_order() =~= Seq::<Seq<char>>::empty());
        group
    }

    /// The group's identifier.
    pub fn id(&self) -> (id: &GroupId)
        ensures
            id@ == self.spec_id(),
    {
        &self.id
    }

    /// The groups of the group, in order.
    pub fn member_groups(&self) -> (ids: &Vec<GroupId>)
        ensures
            group_keys(ids@) == self.group_order(),
    {
        &self.group_order
    }

    /// Replaces the installations by those of `order`, in that order. One
    /// listed more than once keeps every listing and the place of its last.
    pub fn set_installations(&mut self, order: Vec<InstallationOrder>)
        ensures
            final(self).spec_id() == old(self).spec_id(),
            final(self).group_order() == old(self).group_order(),
            final(self).group_placements() == old(self).group_placements(),
            final(self).installation_order() == placed_installations(order@),
            final(self).installation_placements().wf(),
            forall|k: Seq<char>| #[trigger]
                final(self).installation_placements().contains(k) <==> placed_installations(order@).contains(k),
            forall|i: int|
                0 <= i < order@.len() && (forall|j: int|
                    i < j < order@.len() ==> order@[j].id@ != order@[i].id@)
                    ==> final(self).installation_placements().value_of(#[trigger] order@[i].id@)
                    == order@[i].position,
    {
        proof {
            use_type_invariant(&*self);
        }
        let mut placed: Table<Coord> = Table::new();
        let mut listed_order: Vec<InstallationId> = Vec::new();
        let n = order.len();
        let mut i: usize = 0;
        assert(installation_keys(listed_order@) =~= placed_installations(order@).subrange(0, 0));
        assert forall|k: Seq<char>| !placed.contains(k) by {
            if placed.contains(k) {
                placed.lemma_contains(k);
            }
        }
        while i < n
            invariant
                n == order@.len(),
                i <= n,
                placed.wf(),
                installation_keys(listed_order@) == placed_installations(order@).subrange(0, i as int),
                forall|k: Seq<char>| #[trigger]
                    placed.contains(k) <==> placed_installations(order@).subrange(
                        0,
                        i as int,
                    ).contains(k),
                forall|a: int|
                    0 <= a < i && (forall|j: int| a < j < i ==> order@[j].id@ != order@[a].id@)
                        ==> placed.value_of(#[trigger] order@[a].id@) == order@[a].position,
            decreases n - i,
        {
            let ghost before = placed;
            let ghost done = placed_installations(order@).subrange(0, i as int);
            let ghost next = placed_installations(order@).subrange(0, i + 1);
            let ghost listed = installation_keys(listed_order@);
            let place = &order[i];
            placed.insert(place.id.unprotect(), place.position);
            listed_order.push(place.id.clone());
            proof {
                let key = place.id@;
                assert(placed_installations(order@)[i as int] == key);
                assert(next =~= done.push(key));
                assert(installation_keys(listed_order@) =~= listed.push(key));
                assert forall|k: Seq<char>| #[trigger]
                    placed.contains(k) <==> next.contains(k) by {
                    if k == key {
                        assert(next[i as int] == key);
                    } else {
                        assert(placed.contains(k) <==> before.contains(k));
                        if next.contains(k) {
                            let j = choose|j: int| 0 <= j < next.len() && next[j] == k;
                            assert(done[j] == k);
                        }
                        if done.contains(k) {
                            let j = choose|j: int| 0 <= j < done.len() && done[j] == k;
                            assert(next[j] == k);
                        }
                    }
                }
                assert forall|a: int|
                    0 <= a < i + 1 && (forall|j: int|
                        a < j < i + 1 ==> order@[j].id@ != order@[a].id@) implies placed.value_of(
                    #[trigger] order@[a].id@,
                ) == order@[a].position by {
                    if a < i {
                        assert(order@[i as int].id@ != order@[a].id@);
                        assert(done[a] == order@[a].id@);
                        assert(before.contains(order@[a].id@));
                        assert(forall|j: int| a < j < i ==> order@[j].id@ != order@[a].id@);
                    }
                }
            }
            i += 1;
        }
        assert(placed_installations(order@).subrange(0, n as int) =~= placed_installations(order@));
        self.installations = placed;
        self.installation_order = listed_order;
    }


    /// Replaces the groups by those of `order`, in that order. One
    /// listed more than once keeps every listing and the place of its last.
    pub fn set_groups(&mut self, order: Vec<GroupOrder>)
        ensures
            final(self).spec_id() == old(self).spec_id(),
            final(self).installation_order() == old(self).installation_order(),
            final(self).installation_placements() == old(self).installation_placements(),
            final(self).group_order() == placed_groups(order@),
            final(self).group_placements().wf(),
            forall|k: Seq<char>| #[trigger]
                final(self).group_placements().contains(k) <==> placed_groups(order@).contains(k),
            forall|i: int|
                0 <= i < order@.len() && (forall|j: int|
                    i < j < order@.len() ==> order@[j].id@ != order@[i].id@)
                    ==> final(self).group_placements().value_of(#[trigger] order@[i].id@)
                    == order@[i].position,
    {
        proof {
            use_type_invariant(&*self);
        }
        let mut placed: Table<Coord> = Table::new();
        let mut listed_order: Vec<GroupId> = Vec::new();
        let n = order.len();
        let mut i: usize = 0;
        assert(group_keys(listed_order@) =~= placed_groups(order@).subrange(0, 0));
        assert forall|k: Seq<char>| !placed.contains(k) by {
            if placed.contains(k) {
                placed.lemma_contains(k);
            }
        }
        while i < n
            invariant
                n == order@.len(),
                i <= n,
                placed.wf(),
                group_keys(listed_order@) == placed_groups(order@).subrange(0, i as int),
                forall|k: Seq<char>| #[trigger]
                    placed.contains(k) <==> placed_groups(order@).subrange(
                        0,
                        i as int,
                    ).contains(k),
                forall|a: int|
                    0 <= a < i && (forall|j: int| a < j < i ==> order@[j].id@ != order@[a].id@)
                        ==> placed.value_of(#[trigger] order@[a].id@) == order@[a].position,
            decreases n - i,
        {
            let ghost before = placed;
            let ghost done = placed_groups(order@).subrange(0, i as int);
            let ghost next = placed_groups(order@).subrange(0, i + 1);
            let ghost listed = group_keys(listed_order@);
            let place = &order[i];
            placed.insert(place.id.unprotect(), place.position);
            listed_order.push(place.id.clone());
            proof {
                let key = place.id@;
                assert(placed_groups(order@)[i as int] == key);
                assert(next =~= done.push(key));
                assert(group_keys(listed_order@) =~= listed.push(key));
                assert forall|k: Seq<char>| #[trigger]
                    placed.contains(k) <==> next.contains(k) by {
                    if k == key {
                        assert(next[i as int] == key);
                    } else {
                        assert(placed.contains(k) <==> before.contains(k));
                        if next.contains(k) {
                            let j = choose|j: int| 0 <= j < next.len() && next[j] == k;
                            assert(done[j] == k);
                        }
                        if done.contains(k) {
                            let j = choose|j: int| 0 <= j < done.len() && done[j] == k;
                            assert(next[j] == k);
                        }
                    }
                }
                assert forall|a: int|
                    0 <= a < i + 1 && (forall|j: int|
                        a < j < i + 1 ==> order@[j].id@ != order@[a].id@) implies placed.value_of(
                    #[trigger] order@[a].id@,
                ) == order@[a].position by {
                    if a < i {
                        assert(order@[i as int].id@ != order@[a].id@);
                        assert(done[a] == order@[a].id@);
                        assert(before.contains(order@[a].id@));
                        assert(forall|j: int| a < j < i ==> order@[j].id@ != order@[a].id@);
                    }
                }
            }
            i += 1;
        }
        assert(placed_groups(order@).subrange(0, n as int) =~= placed_groups(order@));
        self.groups = placed;
        self.group_order = listed_order;
    }


    /// The chunks of the group: those of its groups, in order, then those of
    /// its installations, in order.
    pub fn get_fixture_chunks(&self, context: &WorldContext) -> (chunks: Vec<(FixtureId, u32)>)
        requires
            context.wf(),
        ensures
            chunk_views(chunks@) == self.chunks_in(*context),
    {
        let mut chunks = chunks_of_groups(&self.group_order, context, context.group_table().len());
        let own = chunks_of_installations(&self.installation_order, context);
        append_chunks(&mut chunks, &own);
        chunks
    }

    /// The number of LEDs of the group: those of all its chunks together,
    /// held at `u32::MAX` where there are more.
    pub fn led_count(&self, context: &WorldContext) -> (count: u32)
        requires
            context.wf(),
        ensures
            count == saturated(chunk_total(self.chunks_in(*context))),
    {
        let chunks = self.get_fixture_chunks(context);
        total_of_chunks(&chunks)
    }

    /// The position of every LED of the group: those of each chunk's fixture
    /// in turn.
    pub fn get_all_led_positions(&self, context: &WorldContext) -> (positions: Vec<Coord>)
        requires
            context.wf(),
        ensures
            positions@ == chunk_positions(self.chunks_in(*context), context.fixtures()),
    {
        let chunks = self.get_fixture_chunks(context);
        positions_of_chunks(&chunks, context.fixture_table())
    }

    /// The position of LED `led` of the group; the origin where it has no
    /// such LED.
    pub fn get_led_position(&self, context: &WorldContext, led: u32) -> (position: Coord)
        requires
            context.wf(),
        ensures
            position == position_at(
                chunk_positions(self.chunks_in(*context), context.fixtures()),
                led,
            ),
    {
        let positions = self.get_all_led_positions(context);
        if (led as usize) < positions.len() {
            positions[led as usize]
        } else {
            Coord::origin()
        }
    }
}

/// The chunks of the installations `order` in turn.
pub fn chunks_of_installations(order: &Vec<InstallationId>, context: &WorldContext) -> (chunks: Vec<
    (FixtureId, u32),
>)
    requires
        context.wf(),
    ensures
        chunk_views(chunks@) == installations_chunks(
            installation_keys(order@),
            context.installations(),
            context.fixtures(),
        ),
{
    let installations = context.installation_table();
    let mut chunks: Vec<(FixtureId, u32)> = Vec::new();
    let n = order.len();
    let mut i: usize = 0;
    let ghost keys = installation_keys(order@);
    assert(keys.subrange(0, 0) =~= Seq::<Seq<char>>::empty());
    assert(chunk_views(chunks@) =~= Seq::<ChunkView>::empty());
    while i < n
        invariant
            context.wf(),
            *installations == context.installations(),
            keys == installation_keys(order@),
            n == order@.len(),
            i <= n,
            chunk_views(chunks@) == installations_chunks(
                keys.subrange(0, i as int),
                context.installations(),
                context.fixtures(),
            ),
        decreases n - i,
    {
        proof {
            assert(keys[i as int] == order@[i as int]@);
            assert(keys.subrange(0, i + 1).drop_last() =~= keys.subrange(0, i as int));
            assert(keys.subrange(0, i + 1).last() == order@[i as int]@);
        }
        match installations.get(order[i].key()) {
            Some(installation) => {
                let own = installation.get_fixture_chunks(context);
                append_chunks(&mut chunks, &own);
            },
            None => {},
        }
        i += 1;
    }
    assert(keys.subrange(0, n as int) =~= keys);
    chunks
}

/// The chunks of the groups `order` in turn, following groups within groups
/// `depth` deep.
pub fn chunks_of_groups(order: &Vec<GroupId>, context: &WorldContext, depth: usize) -> (chunks: Vec<
    (FixtureId, u32),
>)
    requires
        context.wf(),
    ensures
        chunk_views(chunks@) == groups_chunks(
            group_keys(order@),
            context.groups(),
            context.installations(),
            context.fixtures(),
            depth as nat,
        ),
    decreases depth,
{
    let groups = context.group_table();
    let mut chunks: Vec<(FixtureId, u32)> = Vec::new();
    let n = order.len();
    let mut i: usize = 0;
    let ghost keys = group_keys(order@);
    assert(keys.subrange(0, 0) =~= Seq::<Seq<char>>::empty());
    assert(chunk_views(chunks@) =~= Seq::<ChunkView>::empty());
    while i < n
        invariant
            context.wf(),
            *groups == context.groups(),
            keys == group_keys(order@),
            n == order@.len(),
            i <= n,
            chunk_views(chunks@) == groups_chunks(
                keys.subrange(0, i as int),
                context.groups(),
                context.installations(),
                context.fixtures(),
                depth as nat,
            ),
        decreases n - i,
    {
        let ghost before = chunk_views(chunks@);
        proof {
            assert(keys[i as int] == order@[i as int]@);
            assert(keys.subrange(0, i + 1).drop_last() =~= keys.subrange(0, i as int));
            assert(keys.subrange(0, i + 1).last() == order@[i as int]@);
        }
        if depth > 0 {
            match groups.get(order[i].key()) {
                Some(group) => {
                    let within = chunks_of_groups(&group.group_order, context, depth - 1);
                    let own = chunks_of_installations(&group.installation_order, context);
                    append_chunks(&mut chunks, &within);
                    append_chunks(&mut chunks, &own);
                    assert(chunk_views(chunks@) =~= before + (chunk_views(within@) + chunk_views(
                        own@,
                    )));
                },
                None => {},
            }
        }
        i += 1;
    }
    assert(keys.subrange(0, n as int) =~= keys);
    chunks
}

/// Whether one of the groups `order`, or a group within them at most `depth`
/// deep, is `target`.
pub fn reaches_group(order: &Vec<GroupId>, context: &WorldContext, target: &GroupId, depth: usize) -> (found:
    bool)
    requires
        context.wf(),
    ensures
        found == groups_reach(group_keys(order@), context.groups(), target@, depth as nat),
    decreases depth,
{
    let groups = context.group_table();
    let n = order.len();
    let mut i: usize = 0;
    let ghost keys = group_keys(order@);
    assert(keys.subrange(0, 0) =~= Seq::<Seq<char>>::empty());
    while i < n
        invariant
            context.wf(),
            *groups == context.groups(),
            keys == group_keys(order@),
            n == order@.len(),
            i <= n,
            !groups_reach(keys.subrange(0, i as int), context.groups(), target@, depth as nat),
        decreases n - i,
    {
        proof {
            assert(keys[i as int] == order@[i as int]@);
            assert(keys.subrange(0, i + 1).drop_last() =~= keys.subrange(0, i as int));
            assert(keys.subrange(0, i + 1).last() == order@[i as int]@);
        }
        if order[i].same(target) {
            proof {
                lemma_reach_grows(keys, context.groups(), target@, depth as nat, i + 1);
            }
            return true;
        }
        if depth > 0 {
            match groups.get(order[i].key()) {
                Some(group) => {
                    if reaches_group(&group.group_order, context, target, depth - 1) {
                        proof {
                            lemma_reach_grows(keys, context.groups(), target@, depth as nat, i + 1);
                        }
                        return true;
                    }
                },
                None => {},
            }
        }
        i += 1;
    }
    assert(keys.subrange(0, n as int) =~= keys);
    false
}

/// What a front part of a list of groups reaches, the whole list reaches.
pub proof fn lemma_reach_grows(
    order: Seq<Seq<char>>,
    groups: Table<Group>,
    target: Seq<char>,
    depth: nat,
    front: int,
)
    requires
        0 <= front <= order.len(),
        groups_reach(order.subrange(0, front), groups, target, depth),
    ensures
        groups_reach(order, groups, target, depth),
    decreases order.len() - front,
{
    if front < order.len() {
        assert(order.subrange(0, front + 1).drop_last() =~= order.subrange(0, front));
        lemma_reach_grows(order, groups, target, depth, front + 1);
    } else {
        assert(order.subrange(0, front) =~= order);
    }
}

impl Clone for Group {
    fn clone(&self) -> (copy: Self)
        ensures
            copy.spec_id() == self.spec_id(),
            copy.installation_order() == self.installation_order(),
            copy.group_order() == self.group_order(),
            copy.installation_placements().keys() == self.installation_placements().keys(),
            copy.installation_placements().values() == self.installation_placements().values(),
            copy.group_placements().keys() == self.group_placements().keys(),
            copy.group_placements().values() == self.group_placements().values(),
    {
        proof {
            use_type_invariant(self);
        }
        let mut installation_order: Vec<InstallationId> = Vec::new();
        let n = self.installation_order.len();
        let mut i: usize = 0;
        while i < n
            invariant
                n == self.installation_order@.len(),
                i <= n,
                installation_keys(installation_order@) == installation_keys(
                    self.installation_order@,
                ).subrange(0, i as int),
            decreases n - i,
        {
            let ghost before = installation_keys(installation_order@);
            installation_order.push(self.installation_order[i].clone());
            assert(installation_keys(installation_order@) =~= before.push(
                self.installation_order@[i as int]@,
            ));
            assert(installation_keys(self.installation_order@).subrange(0, i + 1) =~= before.push(
                self.installation_order@[i as int]@,
            ));
            i += 1;
        }
        assert(installation_keys(self.installation_order@).subrange(0, n as int)
            =~= installation_keys(self.installation_order@));
        let mut group_order: Vec<GroupId> = Vec::new();
        let m = self.group_order.len();
        let mut j: usize = 0;
        while j < m
            invariant
                m == self.group_order@.len(),
                j <= m,
                group_keys(group_order@) == group_keys(self.group_order@).subrange(0, j as int),
            decreases m - j,
        {
            let ghost before = group_keys(group_order@);
            group_order.push(self.group_order[j].clone());
            assert(group_keys(group_order@) =~= before.push(self.group_order@[j as int]@));
            assert(group_keys(self.group_order@).subrange(0, j + 1) =~= before.push(
                self.group_order@[j as int]@,
            ));
            j += 1;
        }
        assert(group_keys(self.group_order@).subrange(0, m as int) =~= group_keys(
            self.group_order@,
        ));
        Group {
            id: self.id.clone(),
            installations: self.installations.copy(),
            installation_order,
            groups: self.groups.copy(),
            group_order,
        }
    }
}

} // verus!
