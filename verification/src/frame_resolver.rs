//! The frame resolver: from the LEDs that a frame computed for each
//! animation to the LEDs that each fixture is sent.

use crate::animation::manager::AnimationManager;
use crate::animation::{Animation, AnimationTargetType, TargetView};
use crate::devices::manager::DeviceKind;
use crate::event_loop::PipelineFrameOutput;
use crate::id::{DeviceId, FixtureId};
use crate::led::LED;
use crate::table::Table;
use crate::world::chunk::{append_chunks, chunk_total, chunk_views, ChunkView};
use crate::world::context::WorldContext;
use vstd::prelude::*;

verus! {

/// The LEDs sent to one fixture for one frame.
pub type LEDFrame = Vec<LED>;

/// A fixture and the LEDs cut out for it, apart from how they are stored.
pub type SliceView = (Seq<char>, Seq<LED>);

/// The slices of a list, apart from how they are stored.
pub open spec fn slice_views(slices: Seq<(FixtureId, Vec<LED>)>) -> Seq<SliceView> {
    slices.map_values(|s: (FixtureId, Vec<LED>)| (s.0@, s.1@))
}

/// `size` LEDs of `data` from `offset` on; LEDs beyond the end of `data`
/// are dark.
pub open spec fn slice_of(data: Seq<LED>, offset: nat, size: u32) -> Seq<LED> {
    Seq::new(
        size as nat,
        |j: int|
            if offset + j < data.len() {
                data[offset + j]
            } else {
                LED::spec_default()
            },
    )
}

/// The first `total` LEDs of `data`, with dark LEDs where `data` is
/// shorter.
pub open spec fn padded(data: Seq<LED>, total: nat) -> Seq<LED> {
    Seq::new(
        total,
        |j: int|
            if j < data.len() {
                data[j]
            } else {
                LED::spec_default()
            },
    )
}

/// `data` cut along `chunks`: each chunk's fixture gets as many LEDs as the
/// chunk says, from where the chunk before it ended.
pub open spec fn split(data: Seq<LED>, chunks: Seq<ChunkView>) -> Seq<SliceView>
    decreases chunks.len(),
{
    if chunks.len() == 0 {
        Seq::empty()
    } else {
        split(data, chunks.drop_last()).push(
            (
                chunks.last().0,
                slice_of(data, chunk_total(chunks.drop_last()), chunks.last().1),
            ),
        )
    }
}

/// The LEDs of all slices, one slice after another.
pub open spec fn joined(slices: Seq<SliceView>) -> Seq<LED>
    decreases slices.len(),
{
    if slices.len() == 0 {
        Seq::empty()
    } else {
        joined(slices.drop_last()) + slices.last().1
    }
}

/// Cutting along chunks is a partition: there is one slice per chunk, for
/// the chunk's fixture and of the chunk's size, and the slices joined in
/// chunk order are the LEDs that were cut, padded with dark LEDs or cut
/// short to the total size of the chunks.
pub proof fn lemma_split_is_partition(data: Seq<LED>, chunks: Seq<ChunkView>)
    ensures
        split(data, chunks).len() == chunks.len(),
        forall|i: int|
            0 <= i < chunks.len() ==> (#[trigger] split(data, chunks)[i]).0 == chunks[i].0 && split(
                data,
                chunks,
            )[i].1.len() == chunks[i].1,
        joined(split(data, chunks)) == padded(data, chunk_total(chunks)),
    decreases chunks.len(),
{
    if chunks.len() == 0 {
        assert(joined(split(data, chunks)) =~= padded(data, chunk_total(chunks)));
    } else {
        let front = chunks.drop_last();
        lemma_split_is_partition(data, front);
        let all = split(data, chunks);
        assert(all.drop_last() =~= split(data, front));
        assert forall|i: int| 0 <= i < chunks.len() implies (#[trigger] all[i]).0 == chunks[i].0
            && all[i].1.len() == chunks[i].1 by {
            if i < front.len() {
                assert(all[i] == split(data, front)[i]);
                assert(front[i] == chunks[i]);
            }
        }
        assert(joined(all) =~= padded(data, chunk_total(chunks)));
    }
}

/// Where the chunks account for every LED, the slices joined in chunk order
/// are exactly the LEDs that were cut.
pub proof fn lemma_split_reproduces(data: Seq<LED>, chunks: Seq<ChunkView>)
    requires
        data.len() == chunk_total(chunks),
    ensures
        joined(split(data, chunks)) == data,
{
    lemma_split_is_partition(data, chunks);
    assert(padded(data, chunk_total(chunks)) =~= data);
}

/// One slice: `size` LEDs of `data` from `offset` on, dark beyond the end.
pub fn cut(data: &Vec<LED>, offset: usize, size: u32) -> (frame: Vec<LED>)
    ensures
        frame@ == slice_of(data@, offset as nat, size),
{
    let mut frame: Vec<LED> = Vec::new();
    let n = data.len();
    let mut j: u32 = 0;
    while j < size
        invariant
            n == data@.len(),
            j <= size,
            frame@.len() == j,
            forall|i: int| 0 <= i < j ==> #[trigger] frame@[i] == slice_of(data@, offset as nat, size)[i],
        decreases size - j,
    {
        let led = if offset < n && (j as usize) < n - offset {
            data[offset + j as usize]
        } else {
            LED::default()
        };
        frame.push(led);
        j += 1;
    }
    assert(frame@ =~= slice_of(data@, offset as nat, size));
    frame
}

/// Cuts `data` along `chunks`, walking the chunks in order with a running
/// offset. A slice that reaches beyond the end of `data` is padded with
/// dark LEDs; one that starts beyond it is all dark.
pub fn split_frame(data: &Vec<LED>, chunks: &Vec<(FixtureId, u32)>) -> (slices: Vec<
    (FixtureId, Vec<LED>),
>)
    ensures
        slice_views(slices@) == split(data@, chunk_views(chunks@)),
{
    let mut slices: Vec<(FixtureId, Vec<LED>)> = Vec::new();
    let n = chunks.len();
    let mut i: usize = 0;
    // The running offset, held at the largest value where it would pass it:
    // such an offset is beyond the end of any data.
    let mut offset: usize = 0;
    let available = data.len();
    let ghost views = chunk_views(chunks@);
    assert(views.subrange(0, 0) =~= Seq::<ChunkView>::empty());
    assert(slice_views(slices@) =~= Seq::<SliceView>::empty());
    while i < n
        invariant
            n == chunks@.len(),
            available == data@.len(),
            views == chunk_views(chunks@),
            i <= n,
            slice_views(slices@) == split(data@, views.subrange(0, i as int)),
            offset as nat == chunk_total(views.subrange(0, i as int)) || (offset == usize::MAX
                && chunk_total(views.subrange(0, i as int)) >= usize::MAX),
        decreases n - i,
    {
        let ghost before = slice_views(slices@);
        let ghost start = chunk_total(views.subrange(0, i as int));
        let size = chunks[i].1;
        let frame = cut(data, offset, size);
        proof {
            assert(views.subrange(0, i + 1).drop_last() =~= views.subrange(0, i as int));
            assert(views.subrange(0, i + 1).last() == views[i as int]);
            assert(views[i as int] == (chunks@[i as int].0@, size));
            assert(frame@ =~= slice_of(data@, start, size));
        }
        slices.push((chunks[i].0.clone(), frame));
        assert(slice_views(slices@) =~= before.push((chunks@[i as int].0@, frame@)));
        offset = if usize::MAX - offset < size as usize {
            usize::MAX
        } else {
            offset + size as usize
        };
        i += 1;
    }
    assert(views.subrange(0, n as int) =~= views);
    slices
}

/// Copies a list of LEDs.
pub fn copy_leds(leds: &Vec<LED>) -> (copy: Vec<LED>)
    ensures
        copy@ == leds@,
{
    let mut copy: Vec<LED> = Vec::new();
    let n = leds.len();
    let mut i: usize = 0;
    while i < n
        invariant
            n == leds@.len(),
            i <= n,
            copy@ == leds@.subrange(0, i as int),
        decreases n - i,
    {
        copy.push(leds[i]);
        assert(copy@ =~= leds@.subrange(0, i + 1));
        i += 1;
    }
    assert(leds@.subrange(0, n as int) =~= leds@);
    copy
}

/// The LEDs computed for a target, waiting to be cut for its fixtures.
#[derive(Debug)]
pub struct FrameIntermediate {
    pub target: AnimationTargetType,
    pub data: Vec<LED>,
    pub priority: u32,
}

/// A target and the LEDs computed for it, apart from how they are stored.
pub type IntermediateView = (TargetView, Seq<LED>);

/// The targets and LEDs of a list, apart from how they are stored.
pub open spec fn intermediate_views(items: Seq<FrameIntermediate>) -> Seq<IntermediateView> {
    items.map_values(|e: FrameIntermediate| (e.target@, e.data@))
}

/// The target of each entry.
pub open spec fn targets_of(items: Seq<IntermediateView>) -> Seq<TargetView> {
    items.map_values(|e: IntermediateView| e.0)
}

/// The first `upto` entries of `states` whose animation is known, each with
/// the target of its animation. Entries of unknown animations are dropped.
pub open spec fn known_entries(states: Table<Vec<LED>>, animations: Table<Animation>, upto: nat) -> Seq<
    IntermediateView,
>
    decreases upto,
{
    if upto == 0 {
        Seq::empty()
    } else if animations.contains(states.keys()[upto - 1]) {
        known_entries(states, animations, (upto - 1) as nat).push(
            (
                animations.value_of(states.keys()[upto - 1])@.target,
                states.values()[upto - 1]@,
            ),
        )
    } else {
        known_entries(states, animations, (upto - 1) as nat)
    }
}

/// `entry` taken into `items`: it takes the place of the entry for the same
/// target, or goes last where there is none.
pub open spec fn merge_one(items: Seq<IntermediateView>, entry: IntermediateView) -> Seq<
    IntermediateView,
> {
    if targets_of(items).contains(entry.0) {
        items.update(targets_of(items).index_of(entry.0), entry)
    } else {
        items.push(entry)
    }
}

/// One entry per target: of several entries for one target the last one is
/// kept, at the place of the first.
pub open spec fn merged(items: Seq<IntermediateView>) -> Seq<IntermediateView>
    decreases items.len(),
{
    if items.len() == 0 {
        Seq::empty()
    } else {
        merge_one(merged(items.drop_last()), items.last())
    }
}

/// Merging leaves one entry per target: no target occurs twice, every
/// target of the entries still has an entry, and no other target has one.
pub proof fn lemma_merged_targets(items: Seq<IntermediateView>)
    ensures
        targets_of(merged(items)).no_duplicates(),
        forall|t: TargetView| #[trigger]
            targets_of(merged(items)).contains(t) <==> targets_of(items).contains(t),
    decreases items.len(),
{
    if items.len() > 0 {
        let front = items.drop_last();
        let last = items.last();
        lemma_merged_targets(front);
        let before = merged(front);
        let after = merged(items);
        let targets = targets_of(before);
        if targets.contains(last.0) {
            let at = targets.index_of(last.0);
            assert(0 <= at < targets.len() && targets[at] == last.0);
            assert(targets_of(after) =~= targets);
        } else {
            assert(targets_of(after) =~= targets.push(last.0));
            assert forall|a: int, b: int|
                0 <= a < targets_of(after).len() && 0 <= b < targets_of(after).len() && a
                    != b implies targets_of(after)[a] != targets_of(after)[b] by {
                if a < targets.len() {
                    assert(targets.contains(targets[a]));
                }
                if b < targets.len() {
                    assert(targets.contains(targets[b]));
                }
            }
        }
        assert forall|t: TargetView| #[trigger]
            targets_of(after).contains(t) <==> targets_of(items).contains(t) by {
            assert(targets_of(items).drop_last() =~= targets_of(front));
            assert(targets_of(items).last() == last.0);
            if targets_of(items).contains(t) {
                let j = choose|j: int| 0 <= j < items.len() && targets_of(items)[j] == t;
                if j < front.len() {
                    assert(targets_of(front)[j] == t);
                    assert(targets.contains(t));
                    let at = choose|at: int| 0 <= at < targets.len() && targets[at] == t;
                    assert(targets_of(after)[at] == t);
                } else {
                    if targets.contains(last.0) {
                        let at = choose|at: int| 0 <= at < targets.len() && targets[at] == last.0;
                        assert(targets_of(after)[at] == t);
                    } else {
                        assert(targets_of(after)[targets.len() as int] == t);
                    }
                }
            }
            if targets_of(after).contains(t) {
                let at = choose|at: int| 0 <= at < targets_of(after).len() && targets_of(after)[at] == t;
                if at < targets.len() {
                    assert(targets[at] == t);
                    assert(targets.contains(t));
                    assert(targets_of(front).contains(t));
                    let j = choose|j: int| 0 <= j < front.len() && targets_of(front)[j] == t;
                    assert(targets_of(items)[j] == t);
                } else {
                    assert(t == last.0);
                    assert(targets_of(items)[items.len() - 1] == t);
                }
            }
        }
    } else {
        assert(targets_of(merged(items)) =~= Seq::<TargetView>::empty());
    }
}

/// The last writer wins: of the entries for one target, the one that comes
/// last is the one that merging keeps.
pub proof fn lemma_last_writer_wins(items: Seq<IntermediateView>, last: int)
    requires
        0 <= last < items.len(),
        forall|j: int| last < j < items.len() ==> items[j].0 != items[last].0,
    ensures
        merged(items).contains(items[last]),
    decreases items.len(),
{
    let front = items.drop_last();
    let before = merged(front);
    let after = merged(items);
    let targets = targets_of(before);
    lemma_merged_targets(front);
    if last == items.len() - 1 {
        if targets.contains(items[last].0) {
            let at = targets.index_of(items[last].0);
            assert(0 <= at < targets.len() && targets[at] == items[last].0);
            assert(after[at] == items[last]);
        } else {
            assert(after[before.len() as int] == items[last]);
        }
    } else {
        assert(front[last] == items[last]);
        lemma_last_writer_wins(front, last);
        let kept = choose|kept: int| 0 <= kept < before.len() && before[kept] == items[last];
        let newest = items.last();
        assert(newest.0 != items[last].0);
        if targets.contains(newest.0) {
            let at = targets.index_of(newest.0);
            assert(0 <= at < targets.len() && targets[at] == newest.0);
            assert(targets[kept] == items[last].0);
            assert(at != kept);
            assert(after[kept] == items[last]);
        } else {
            assert(after[kept] == items[last]);
        }
    }
}

/// The chunks of `target` in `world`; none where the world has no such
/// target.
pub open spec fn chunks_of_target(world: WorldContext, target: TargetView) -> Seq<ChunkView> {
    match target {
        TargetView::Fixture(id) => if world.fixtures().contains(id) {
            seq![(id, world.fixtures().value_of(id).spec_led_count())]
        } else {
            Seq::empty()
        },
        TargetView::Installation(id) => if world.installations().contains(id) {
            world.installations().value_of(id).chunks(world.fixtures())
        } else {
            Seq::empty()
        },
        TargetView::Group(id) => if world.groups().contains(id) {
            world.groups().value_of(id).chunks_in(world)
        } else {
            Seq::empty()
        },
    }
}

/// The slices of every entry in turn, each cut along the chunks of its
/// target.
pub open spec fn resolved(items: Seq<IntermediateView>, world: WorldContext) -> Seq<SliceView>
    decreases items.len(),
{
    if items.len() == 0 {
        Seq::empty()
    } else {
        resolved(items.drop_last(), world) + split(
            items.last().1,
            chunks_of_target(world, items.last().0),
        )
    }
}

/// Whether two targets are the same: of the same kind, with the same
/// identifier.
pub fn same_target(a: &AnimationTargetType, b: &AnimationTargetType) -> (same: bool)
    ensures
        same == (a@ == b@),
{
    match (a, b) {
        (AnimationTargetType::Fixture(x), AnimationTargetType::Fixture(y)) => x.same(y),
        (AnimationTargetType::Installation(x), AnimationTargetType::Installation(y)) => x.same(y),
        (AnimationTargetType::Group(x), AnimationTargetType::Group(y)) => x.same(y),
        _ => false,
    }
}

/// Takes `entry` into `items`: the last writer for a target wins.
pub fn merge_entry(items: &mut Vec<FrameIntermediate>, entry: FrameIntermediate)
    requires
        targets_of(intermediate_views(old(items)@)).no_duplicates(),
    ensures
        intermediate_views(final(items)@) == merge_one(
            intermediate_views(old(items)@),
            (entry.target@, entry.data@),
        ),
        targets_of(intermediate_views(final(items)@)).no_duplicates(),
{
    let ghost before = intermediate_views(items@);
    let ghost targets = targets_of(before);
    let n = items.len();
    let mut i: usize = 0;
    while i < n
        invariant
            items@ == old(items)@,
            before == intermediate_views(items@),
            targets == targets_of(before),
            targets.no_duplicates(),
            n == items@.len(),
            i <= n,
            forall|j: int| 0 <= j < i ==> targets[j] != entry.target@,
        decreases n - i,
    {
        if same_target(&items[i].target, &entry.target) {
            proof {
                assert(targets[i as int] == entry.target@);
                assert(targets.contains(entry.target@));
                let at = targets.index_of(entry.target@);
                assert(0 <= at < targets.len() && targets[at] == entry.target@);
                assert(at == i);
            }
            let ghost new_view = (entry.target@, entry.data@);
            items.set(i, entry);
            proof {
                assert(intermediate_views(items@) =~= before.update(i as int, new_view));
                assert(targets_of(intermediate_views(items@)) =~= targets);
            }
            return ;
        }
        i += 1;
    }
    assert(!targets.contains(entry.target@)) by {
        if targets.contains(entry.target@) {
            let at = choose|at: int| 0 <= at < targets.len() && targets[at] == entry.target@;
            assert(targets[at] != entry.target@);
        }
    }
    let ghost new_view = (entry.target@, entry.data@);
    items.push(entry);
    proof {
        assert(intermediate_views(items@) =~= before.push(new_view));
        let after = targets_of(intermediate_views(items@));
        assert(after =~= targets.push(new_view.0));
        assert forall|a: int, b: int| 0 <= a < after.len() && 0 <= b < after.len() && a
            != b implies after[a] != after[b] by {
            if a < targets.len() {
                assert(targets.contains(targets[a]));
            }
            if b < targets.len() {
                assert(targets.contains(targets[b]));
            }
        }
    }
}

/// The chunks of `target` in `world`.
pub fn target_chunks(world: &WorldContext, target: &AnimationTargetType) -> (chunks: Vec<
    (FixtureId, u32),
>)
    requires
        world.wf(),
    ensures
        chunk_views(chunks@) == chunks_of_target(*world, target@),
{
    let mut chunks: Vec<(FixtureId, u32)> = Vec::new();
    assert(chunk_views(chunks@) =~= Seq::<ChunkView>::empty());
    match target {
        AnimationTargetType::Fixture(id) => {
            match world.fixture_table().get(id.key()) {
                Some(fixture) => {
                    chunks.push((id.clone(), fixture.led_count()));
                    assert(chunk_views(chunks@) =~= seq![(id@, fixture.spec_led_count())]);
                },
                None => {},
            }
        },
        AnimationTargetType::Installation(id) => {
            match world.installation_table().get(id.key()) {
                Some(installation) => {
                    chunks = installation.get_fixture_chunks(world);
                },
                None => {},
            }
        },
        AnimationTargetType::Group(id) => {
            match world.group_table().get(id.key()) {
                Some(group) => {
                    chunks = group.get_fixture_chunks(world);
                },
                None => {},
            }
        },
    }
    chunks
}

/// Where the LEDs of a fixture go.
#[derive(Debug)]
pub enum Route {
    /// To the buffer of the device.
    Device(DeviceId),
    /// Nowhere: the fixture is mapped to no device.
    Unmapped,
    /// Nowhere: the device the fixture is mapped to has no buffer.
    NoBuffer(DeviceId),
}

/// A route, apart from how it is stored.
pub enum RouteView {
    Device(Seq<char>),
    Unmapped,
    NoBuffer(Seq<char>),
}

impl View for Route {
    type V = RouteView;

    open spec fn view(&self) -> RouteView {
        match self {
            Route::Device(id) => RouteView::Device(id@),
            Route::Unmapped => RouteView::Unmapped,
            Route::NoBuffer(id) => RouteView::NoBuffer(id@),
        }
    }
}

/// The LEDs of one fixture for one frame, and where they go.
#[derive(Debug)]
pub struct Delivery {
    pub fixture: FixtureId,
    pub route: Route,
    pub frame: LEDFrame,
}

/// A delivery, apart from how it is stored.
pub struct DeliveryView {
    pub fixture: Seq<char>,
    pub route: RouteView,
    pub frame: Seq<LED>,
}

impl View for Delivery {
    type V = DeliveryView;

    open spec fn view(&self) -> DeliveryView {
        DeliveryView { fixture: self.fixture@, route: self.route@, frame: self.frame@ }
    }
}

/// The deliveries of a list, apart from how they are stored.
pub open spec fn delivery_views(deliveries: Seq<Delivery>) -> Seq<DeliveryView> {
    deliveries.map_values(|d: Delivery| d@)
}

/// The frame resolver: which device each fixture is wired to, and which
/// devices have a buffer to send into.
#[derive(Debug)]
pub struct FrameResolver {
    fixture_to_device: Table<DeviceId>,
    device_buffers: Table<bool>,
}

impl FrameResolver {
    /// The device of each fixture.
    pub closed spec fn wiring(&self) -> Table<DeviceId> {
        self.fixture_to_device
    }

    /// The devices that have a buffer.
    pub closed spec fn buffers(&self) -> Table<bool> {
        self.device_buffers
    }

    /// The tables are well formed.
    pub open spec fn wf(&self) -> bool {
        self.wiring().wf() && self.buffers().wf()
    }

    /// Where the LEDs of `fixture` go.
    pub open spec fn route_of(&self, fixture: Seq<char>) -> RouteView {
        if !self.wiring().contains(fixture) {
            RouteView::Unmapped
        } else if self.buffers().contains(self.wiring().value_of(fixture)@) {
            RouteView::Device(self.wiring().value_of(fixture)@)
        } else {
            RouteView::NoBuffer(self.wiring().value_of(fixture)@)
        }
    }

    /// One delivery per slice, in order, routed by the fixture.
    pub open spec fn deliveries_for(&self, slices: Seq<SliceView>) -> Seq<DeliveryView> {
        Seq::new(
            slices.len(),
            |i: int|
                DeliveryView {
                    fixture: slices[i].0,
                    route: self.route_of(slices[i].0),
                    frame: slices[i].1,
                },
        )
    }

    /// What one frame's output resolves to: the entries of known animations,
    /// one per target with the last writer winning, each cut along the
    /// chunks of its target and routed by fixture.
    pub open spec fn resolution(
        &self,
        states: Table<Vec<LED>>,
        animations: Table<Animation>,
        world: WorldContext,
    ) -> Seq<DeliveryView> {
        self.deliveries_for(
            resolved(merged(known_entries(states, animations, states.keys().len())), world),
        )
    }

    /// A resolver without wiring or buffers.
    pub fn new() -> (resolver: FrameResolver)
        ensures
            resolver.wf(),
            resolver.wiring().keys().len() == 0,
            resolver.buffers().keys().len() == 0,
    {
        FrameResolver { fixture_to_device: Table::new(), device_buffers: Table::new() }
    }

    /// Wires `fixture_id` to `device_id`, in place of any device it was
    /// wired to.
    pub fn set_fixture_to_device(&mut self, fixture_id: FixtureId, device_id: DeviceId)
        requires
            old(self).wf(),
        ensures
            final(self).wf(),
            final(self).buffers() == old(self).buffers(),
            old(self).wiring().stored(&final(self).wiring(), fixture_id@),
            final(self).wiring().value_of(fixture_id@) == device_id,
    {
        self.fixture_to_device.insert(fixture_id.unprotect(), device_id);
    }

    /// Notes that `device_id` has a buffer to send into.
    pub fn set_device_buffer(&mut self, device_id: DeviceId)
        requires
            old(self).wf(),
        ensures
            final(self).wf(),
            final(self).wiring() == old(self).wiring(),
            old(self).buffers().stored(&final(self).buffers(), device_id@),
    {
        self.device_buffers.insert(device_id.unprotect(), true);
    }

    /// A device was added: an LED output device gets a buffer to be sent
    /// into; any other device gets none. Says whether it got one.
    pub fn on_device_added(&mut self, device_id: DeviceId, kind: DeviceKind) -> (buffered: bool)
        requires
            old(self).wf(),
        ensures
            final(self).wf(),
            final(self).wiring() == old(self).wiring(),
            buffered == (kind == DeviceKind::LEDDataOutput),
            buffered ==> old(self).buffers().stored(&final(self).buffers(), device_id@),
            !buffered ==> final(self).buffers() == old(self).buffers(),
    {
        match kind {
            DeviceKind::LEDDataOutput => {
                self.set_device_buffer(device_id);
                true
            },
            DeviceKind::AuxiliaryData => false,
        }
    }

    /// Forgets the buffer of `device_id` and every wiring to it.
    pub fn remove_device(&mut self, device_id: &DeviceId)
        requires
            old(self).wf(),
        ensures
            final(self).wf(),
            old(self).buffers().dropped(&final(self).buffers(), device_id@),
            forall|k: Seq<char>| #[trigger]
                final(self).wiring().contains(k) <==> old(self).wiring().contains(k) && old(self).wiring().value_of(k)@ != device_id@,
            forall|k: Seq<char>|
                final(self).wiring().contains(k) ==> #[trigger] final(self).wiring().value_of(k)
                    == old(self).wiring().value_of(k),
    {
        let _gone = self.device_buffers.remove(device_id.key());
        let mut wired: Vec<String> = Vec::new();
        let n = self.fixture_to_device.len();
        let mut i: usize = 0;
        while i < n
            invariant
                self.fixture_to_device == old(self).fixture_to_device,
                self.fixture_to_device.wf(),
                n == self.fixture_to_device.keys().len(),
                i <= n,
                forall|k: Seq<char>| #[trigger]
                    crate::table::text_views(wired@).contains(k) <==> self.fixture_to_device.keys().subrange(
                        0,
                        i as int,
                    ).contains(k) && self.fixture_to_device.value_of(k)@ == device_id@,
            decreases n - i,
        {
            let ghost before = crate::table::text_views(wired@);
            let key = self.fixture_to_device.key_at(i);
            proof {
                self.fixture_to_device.lemma_index_of(i as int);
            }
            let hit = self.fixture_to_device.value_at(i).same(device_id);
            if hit {
                wired.push(key.clone());
                assert(crate::table::text_views(wired@) =~= before.push(key@));
            }
            proof {
                let after = crate::table::text_views(wired@);
                assert forall|k: Seq<char>| #[trigger]
                    after.contains(k) <==> self.fixture_to_device.keys().subrange(
                        0,
                        i + 1,
                    ).contains(k) && self.fixture_to_device.value_of(k)@ == device_id@ by {
                    crate::table::lemma_prefix_contains(self.fixture_to_device.keys(), i as int, k);
                    if hit {
                        if after.contains(k) {
                            let j = choose|j: int| 0 <= j < after.len() && after[j] == k;
                            if j < before.len() {
                                assert(before[j] == k);
                            }
                        }
                        if before.contains(k) {
                            let j = choose|j: int| 0 <= j < before.len() && before[j] == k;
                            assert(after[j] == k);
                        }
                        assert(after[before.len() as int] == key@);
                    }
                }
            }
            i += 1;
        }
        assert(self.fixture_to_device.keys().subrange(0, n as int)
            =~= self.fixture_to_device.keys());
        self.fixture_to_device.remove_all(&wired);
    }

    /// Where the LEDs of `fixture` go.
    pub fn route(&self, fixture: &FixtureId) -> (route: Route)
        requires
            self.wf(),
        ensures
            route@ == self.route_of(fixture@),
    {
        match self.fixture_to_device.get(fixture.key()) {
            None => Route::Unmapped,
            Some(device) => {
                if self.device_buffers.contains_key(device.key()) {
                    Route::Device(device.clone())
                } else {
                    Route::NoBuffer(device.clone())
                }
            },
        }
    }

    /// Resolves one frame's output into deliveries. An entry of an unknown
    /// animation is dropped. Of several entries for one target the last is
    /// kept. The LEDs of each target are cut along the target's chunks, and
    /// every slice is routed to the device its fixture is wired to. A target
    /// that the world does not hold gives no slice.
    pub fn resolve(
        &self,
        animations: &AnimationManager,
        world: &WorldContext,
        output: &PipelineFrameOutput,
    ) -> (deliveries: Vec<Delivery>)
        requires
            self.wf(),
            animations.wf(),
            world.wf(),
            output.states.wf(),
        ensures
            delivery_views(deliveries@) == self.resolution(
                output.states,
                animations.animations(),
                *world,
            ),
    {
        let known = animations.animation_table();
        let states = &output.states;
        let mut items: Vec<FrameIntermediate> = Vec::new();
        let n = states.len();
        let mut i: usize = 0;
        assert(intermediate_views(items@) =~= Seq::<IntermediateView>::empty());
        assert(targets_of(intermediate_views(items@)) =~= Seq::<TargetView>::empty());
        while i < n
            invariant
                states.wf(),
                known.wf(),
                *known == animations.animations(),
                n == states.keys().len(),
                i <= n,
                intermediate_views(items@) == merged(known_entries(*states, *known, i as nat)),
                targets_of(intermediate_views(items@)).no_duplicates(),
            decreases n - i,
        {
            let key = states.key_at(i);
            match known.get(key) {
                Some(animation) => {
                    let entry = FrameIntermediate {
                        target: animation.get_target_type(),
                        data: copy_leds(states.value_at(i)),
                        priority: 0,
                    };
                    proof {
                        let more = known_entries(*states, *known, (i + 1) as nat);
                        assert(more.drop_last() =~= known_entries(*states, *known, i as nat));
                    }
                    merge_entry(&mut items, entry);
                },
                None => {},
            }
            i += 1;
        }
        let mut slices: Vec<(FixtureId, Vec<LED>)> = Vec::new();
        let m = items.len();
        let mut j: usize = 0;
        let ghost entries = intermediate_views(items@);
        assert(entries.subrange(0, 0) =~= Seq::<IntermediateView>::empty());
        assert(slice_views(slices@) =~= Seq::<SliceView>::empty());
        while j < m
            invariant
                world.wf(),
                m == items@.len(),
                entries == intermediate_views(items@),
                j <= m,
                slice_views(slices@) == resolved(entries.subrange(0, j as int), *world),
            decreases m - j,
        {
            let ghost before = slice_views(slices@);
            let chunks = target_chunks(world, &items[j].target);
            let mut own = split_frame(&items[j].data, &chunks);
            proof {
                assert(entries.subrange(0, j + 1).drop_last() =~= entries.subrange(0, j as int));
                assert(entries.subrange(0, j + 1).last() == entries[j as int]);
                assert(entries[j as int] == (items@[j as int].target@, items@[j as int].data@));
            }
            let ghost own_views = slice_views(own@);
            slices.append(&mut own);
            assert(slice_views(slices@) =~= before + own_views);
            j += 1;
        }
        assert(entries.subrange(0, m as int) =~= entries);
        let mut deliveries: Vec<Delivery> = Vec::new();
        let count = slices.len();
        let ghost cut = slice_views(slices@);
        let mut k: usize = 0;
        while k < count
            invariant
                self.wf(),
                count == slices@.len(),
                cut == slice_views(slices@),
                k <= count,
                deliveries@.len() == k,
                forall|a: int|
                    0 <= a < k ==> (#[trigger] deliveries@[a])@ == self.deliveries_for(cut)[a],
            decreases count - k,
        {
            let fixture = slices[k].0.clone();
            let route = self.route(&fixture);
            let frame = copy_leds(&slices[k].1);
            assert(cut[k as int] == (slices@[k as int].0@, slices@[k as int].1@));
            deliveries.push(Delivery { fixture, route, frame });
            k += 1;
        }
        assert(delivery_views(deliveries@) =~= self.deliveries_for(cut));
        deliveries
    }
}

} // verus!
