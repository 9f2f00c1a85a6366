//! The state aggregator: joins world, animations and auxiliaries into the
//! snapshot that a frame works on.

use crate::animation::manager::copy_animations;
use crate::animation::{Animation, AnimationView};
use crate::auxiliary_data::{AuxiliaryData, AuxiliaryDataView};
use crate::id::AuxiliaryId;
use crate::pipeline::binding::auxiliary_keys;
use crate::pipeline::PipelineContext;
use crate::table::Table;
use crate::world::state::{copy_position_table, WorldContextState};
use crate::world::Coord;
use vstd::prelude::*;

verus! {

/// Something that runs on a thread of its own, one step at a time.
pub trait ThreadedObject {
    /// One step. It returns; it does not loop.
    fn tick(&mut self);
}

/// The test "the animation's target has an LED count".
pub open spec fn resolves_test(num_leds: Table<u32>, animations: Table<Animation>) -> spec_fn(
    Seq<char>,
) -> bool {
    |k: Seq<char>| num_leds.contains(animations.value_of(k)@.target.key())
}

/// The animations whose target has an LED count, in table order.
pub open spec fn resolving_animations(num_leds: Table<u32>, animations: Table<Animation>) -> Seq<
    Seq<char>,
> {
    animations.keys().filter(resolves_test(num_leds, animations))
}

/// What the aggregator reads.
pub struct Sources {
    pub world: WorldContextState,
    pub animations: Table<Animation>,
    pub auxiliary_data: Table<AuxiliaryData>,
    pub animation_auxiliary_data: Table<Vec<AuxiliaryId>>,
}

impl Sources {
    /// Every table is well formed.
    pub open spec fn wf(self) -> bool {
        &&& self.world.wf()
        &&& self.animations.wf()
        &&& self.auxiliary_data.wf()
        &&& self.animation_auxiliary_data.wf()
    }
}

/// `context` is the snapshot of `sources`: the LED positions and counts of
/// the world, the animations whose target has an LED count, every auxiliary
/// and every mapping of auxiliaries to animations, each as it is in its
/// source and in the order of its source.
pub open spec fn is_snapshot_of(context: PipelineContext, sources: Sources) -> bool {
    &&& context.wf()
    &&& context.led_positions.keys() == sources.world.led_positions.keys()
    &&& forall|i: int|
        0 <= i < context.led_positions.keys().len() ==> (
        #[trigger] context.led_positions.values()[i])@ == sources.world.led_positions.values()[i]@
    &&& context.num_leds.keys() == sources.world.num_leds.keys()
    &&& context.num_leds.values() == sources.world.num_leds.values()
    &&& context.animations.keys() == resolving_animations(
        sources.world.num_leds,
        sources.animations,
    )
    &&& forall|i: int|
        0 <= i < context.animations.keys().len() ==> (#[trigger] context.animations.values()[i])@
            == sources.animations.value_of(context.animations.keys()[i])@
    &&& context.auxiliary_data.keys() == sources.auxiliary_data.keys()
    &&& forall|i: int|
        0 <= i < context.auxiliary_data.keys().len() ==> (
        #[trigger] context.auxiliary_data.values()[i])@ == sources.auxiliary_data.values()[i]@
    &&& context.animation_auxiliary_data.keys() == sources.animation_auxiliary_data.keys()
    &&& forall|i: int|
        0 <= i < context.animation_auxiliary_data.keys().len() ==> auxiliary_keys(
            (#[trigger] context.animation_auxiliary_data.values()[i])@,
        ) == auxiliary_keys(sources.animation_auxiliary_data.values()[i]@)
}

/// A snapshot, apart from how it is stored: the keys of each table in
/// order, and what each value is.
#[verifier::ext_equal]
pub struct ContextView {
    pub position_keys: Seq<Seq<char>>,
    pub positions: Seq<Seq<Coord>>,
    pub led_keys: Seq<Seq<char>>,
    pub led_counts: Seq<u32>,
    pub animation_keys: Seq<Seq<char>>,
    pub animations: Seq<AnimationView>,
    pub auxiliary_keys: Seq<Seq<char>>,
    pub auxiliaries: Seq<AuxiliaryDataView>,
    pub mapping_keys: Seq<Seq<char>>,
    pub mappings: Seq<Seq<Seq<char>>>,
}

/// What a snapshot is, apart from how it is stored.
pub open spec fn context_view(context: PipelineContext) -> ContextView {
    ContextView {
        position_keys: context.led_positions.keys(),
        positions: context.led_positions.values().map_values(|v: Vec<Coord>| v@),
        led_keys: context.num_leds.keys(),
        led_counts: context.num_leds.values(),
        animation_keys: context.animations.keys(),
        animations: context.animations.values().map_values(|a: Animation| a@),
        auxiliary_keys: context.auxiliary_data.keys(),
        auxiliaries: context.auxiliary_data.values().map_values(|a: AuxiliaryData| a@),
        mapping_keys: context.animation_auxiliary_data.keys(),
        mappings: context.animation_auxiliary_data.values().map_values(
            |m: Vec<AuxiliaryId>| auxiliary_keys(m@),
        ),
    }
}

/// Aggregation is idempotent: two snapshots of the same sources are the
/// same, table by table, key by key and value by value.
pub proof fn lemma_aggregation_idempotent(
    first: PipelineContext,
    second: PipelineContext,
    sources: Sources,
)
    requires
        is_snapshot_of(first, sources),
        is_snapshot_of(second, sources),
    ensures
        context_view(first) == context_view(second),
{
    let a = context_view(first);
    let b = context_view(second);
    assert(a.positions =~= b.positions);
    assert(a.animations =~= b.animations);
    assert(a.auxiliaries =~= b.auxiliaries);
    assert(a.mappings =~= b.mappings);
    assert(a =~= b);
}

/// Every animation of a snapshot has a target with an LED count in the
/// snapshot, and with LED positions where the world has positions for
/// every target it has a count for.
pub proof fn lemma_snapshot_targets_resolve(context: PipelineContext, sources: Sources)
    requires
        sources.wf(),
        is_snapshot_of(context, sources),
        forall|k: Seq<char>|
            sources.world.num_leds.contains(k) ==> sources.world.led_positions.contains(k),
    ensures
        context.targets_resolve(),
{
    let test = resolves_test(sources.world.num_leds, sources.animations);
    assert forall|i: int| 0 <= i < context.animations.values().len() implies {
        let key = (#[trigger] context.animations.values()[i])@.target.key();
        context.num_leds.contains(key) && context.led_positions.contains(key)
    } by {
        let k = context.animations.keys()[i];
        sources.animations.keys().lemma_filter_pred(test, i);
        assert(test(k));
    }
}

/// A copy of a table of auxiliary values.
pub fn copy_auxiliaries(table: &Table<AuxiliaryData>) -> (twin: Table<AuxiliaryData>)
    requires
        table.wf(),
    ensures
        twin.wf(),
        twin.keys() == table.keys(),
        forall|i: int| 0 <= i < table.keys().len() ==> (#[trigger] twin.values()[i])@ == table.values()[i]@,
{
    let mut twin: Table<AuxiliaryData> = Table::new();
    let n = table.len();
    let mut i: usize = 0;
    while i < n
        invariant
            table.wf(),
            twin.wf(),
            n == table.keys().len(),
            i <= n,
            twin.keys() == table.keys().subrange(0, i as int),
            forall|j: int| 0 <= j < i ==> (#[trigger] twin.values()[j])@ == table.values()[j]@,
        decreases n - i,
    {
        let key = table.key_at(i);
        proof {
            if twin.contains(key@) {
                twin.lemma_contains(key@);
                assert(table.keys()[twin.index_of(key@)] == table.keys()[i as int]);
            }
            assert(table.keys().subrange(0, i + 1) =~= table.keys().subrange(0, i as int).push(
                key@,
            ));
        }
        twin.insert(key.clone(), table.value_at(i).clone());
        i += 1;
    }
    assert(table.keys().subrange(0, n as int) =~= table.keys());
    twin
}

/// Copies a list of auxiliary identifiers.
pub fn copy_auxiliary_ids(ids: &Vec<AuxiliaryId>) -> (copy: Vec<AuxiliaryId>)
    ensures
        auxiliary_keys(copy@) == auxiliary_keys(ids@),
{
    let mut copy: Vec<AuxiliaryId> = Vec::new();
    let n = ids.len();
    let mut i: usize = 0;
    while i < n
        invariant
            n == ids@.len(),
            i <= n,
            auxiliary_keys(copy@) == auxiliary_keys(ids@).subrange(0, i as int),
        decreases n - i,
    {
        let ghost before = auxiliary_keys(copy@);
        copy.push(ids[i].clone());
        assert(auxiliary_keys(copy@) =~= before.push(ids@[i as int]@));
        assert(auxiliary_keys(ids@).subrange(0, i + 1) =~= before.push(ids@[i as int]@));
        i += 1;
    }
    assert(auxiliary_keys(ids@).subrange(0, n as int) =~= auxiliary_keys(ids@));
    copy
}

/// A copy of a table of mappings from animations to auxiliaries.
pub fn copy_mappings(table: &Table<Vec<AuxiliaryId>>) -> (twin: Table<Vec<AuxiliaryId>>)
    requires
        table.wf(),
    ensures
        twin.wf(),
        twin.keys() == table.keys(),
        forall|i: int|
            0 <= i < table.keys().len() ==> auxiliary_keys((#[trigger] twin.values()[i])@)
                == auxiliary_keys(table.values()[i]@),
{
    let mut twin: Table<Vec<AuxiliaryId>> = Table::new();
    let n = table.len();
    let mut i: usize = 0;
    while i < n
        invariant
            table.wf(),
            twin.wf(),
            n == table.keys().len(),
            i <= n,
            twin.keys() == table.keys().subrange(0, i as int),
            forall|j: int|
                0 <= j < i ==> auxiliary_keys((#[trigger] twin.values()[j])@) == auxiliary_keys(
                    table.values()[j]@,
                ),
        decreases n - i,
    {
        let key = table.key_at(i);
        proof {
            if twin.contains(key@) {
                twin.lemma_contains(key@);
                assert(table.keys()[twin.index_of(key@)] == table.keys()[i as int]);
            }
            assert(table.keys().subrange(0, i + 1) =~= table.keys().subrange(0, i as int).push(
                key@,
            ));
        }
        twin.insert(key.clone(), copy_auxiliary_ids(table.value_at(i)));
        i += 1;
    }
    assert(table.keys().subrange(0, n as int) =~= table.keys());
    twin
}

/// The animations whose target has an LED count in `num_leds`, copied in
/// table order. An animation whose target the world does not know yet is
/// left out until it does.
pub fn resolving(num_leds: &Table<u32>, animations: &Table<Animation>) -> (kept: Table<Animation>)
    requires
        num_leds.wf(),
        animations.wf(),
    ensures
        kept.wf(),
        kept.keys() == resolving_animations(*num_leds, *animations),
        forall|i: int|
            0 <= i < kept.keys().len() ==> (#[trigger] kept.values()[i])@ == animations.value_of(
                kept.keys()[i],
            )@,
{
    let mut kept: Table<Animation> = Table::new();
    let n = animations.len();
    let mut i: usize = 0;
    let ghost test = resolves_test(*num_leds, *animations);
    assert(animations.keys().subrange(0, 0) =~= Seq::<Seq<char>>::empty());
    proof {
        crate::table::lemma_filter_empty(test);
    }
    while i < n
        invariant
            num_leds.wf(),
            animations.wf(),
            kept.wf(),
            test == resolves_test(*num_leds, *animations),
            n == animations.keys().len(),
            i <= n,
            kept.keys() == animations.keys().subrange(0, i as int).filter(test),
            forall|j: int|
                0 <= j < kept.keys().len() ==> (#[trigger] kept.values()[j])@
                    == animations.value_of(kept.keys()[j])@,
        decreases n - i,
    {
        let key = animations.key_at(i);
        let animation = animations.value_at(i);
        let ghost before = kept;
        proof {
            let front = animations.keys().subrange(0, i as int);
            assert(animations.keys().subrange(0, i + 1) =~= front.push(key@));
            front.lemma_filter_push(key@, test);
            animations.lemma_index_of(i as int);
            if kept.contains(key@) {
                front.lemma_filter_contains_rev(test, key@);
                let j = choose|j: int| 0 <= j < front.len() && front[j] == key@;
                assert(animations.keys()[j] == animations.keys()[i as int]);
            }
        }
        let target_id = animation.get_target_type().target_id();
        if num_leds.contains_key(&target_id) {
            kept.insert(key.clone(), animation.clone());
            proof {
                assert forall|j: int| 0 <= j < kept.keys().len() implies (
                #[trigger] kept.values()[j])@ == animations.value_of(kept.keys()[j])@ by {
                    kept.lemma_index_of(j);
                    if j < before.keys().len() {
                        before.lemma_index_of(j);
                        assert(before.contains(kept.keys()[j]));
                    }
                }
            }
        }
        i += 1;
    }
    assert(animations.keys().subrange(0, n as int) =~= animations.keys());
    kept
}

/// Builds the snapshot of the given sources.
pub fn aggregate(
    world: &WorldContextState,
    animations: &Table<Animation>,
    auxiliary_data: &Table<AuxiliaryData>,
    animation_auxiliary_data: &Table<Vec<AuxiliaryId>>,
) -> (context: PipelineContext)
    requires
        world.wf(),
        animations.wf(),
        auxiliary_data.wf(),
        animation_auxiliary_data.wf(),
    ensures
        is_snapshot_of(
            context,
            Sources {
                world: *world,
                animations: *animations,
                auxiliary_data: *auxiliary_data,
                animation_auxiliary_data: *animation_auxiliary_data,
            },
        ),
        (forall|k: Seq<char>| world.num_leds.contains(k) ==> world.led_positions.contains(k))
            ==> context.targets_resolve(),
{
    let context = PipelineContext {
        led_positions: copy_position_table(&world.led_positions),
        num_leds: world.num_leds.copy(),
        animations: resolving(&world.num_leds, animations),
        auxiliary_data: copy_auxiliaries(auxiliary_data),
        animation_auxiliary_data: copy_mappings(animation_auxiliary_data),
    };
    proof {
        let sources = Sources {
            world: *world,
            animations: *animations,
            auxiliary_data: *auxiliary_data,
            animation_auxiliary_data: *animation_auxiliary_data,
        };
        if forall|k: Seq<char>| world.num_leds.contains(k) ==> world.led_positions.contains(k) {
            lemma_snapshot_targets_resolve(context, sources);
        }
    }
    context
}

/// One step of the aggregator: a snapshot for every subscriber whose
/// mailbox has room. A subscriber whose mailbox is full is passed over this
/// time; the next snapshot supersedes the one it misses.
pub fn tick(
    world: &WorldContextState,
    animations: &Table<Animation>,
    auxiliary_data: &Table<AuxiliaryData>,
    animation_auxiliary_data: &Table<Vec<AuxiliaryId>>,
    mailbox_is_full: &Vec<bool>,
) -> (snapshots: Vec<Option<PipelineContext>>)
    requires
        world.wf(),
        animations.wf(),
        auxiliary_data.wf(),
        animation_auxiliary_data.wf(),
    ensures
        snapshots@.len() == mailbox_is_full@.len(),
        forall|i: int|
            0 <= i < snapshots@.len() ==> ((#[trigger] snapshots@[i]) is None
                <==> mailbox_is_full@[i]),
        forall|i: int|
            0 <= i < snapshots@.len() && !mailbox_is_full@[i] ==> is_snapshot_of(
                (#[trigger] snapshots@[i])->0,
                Sources {
                    world: *world,
                    animations: *animations,
                    auxiliary_data: *auxiliary_data,
                    animation_auxiliary_data: *animation_auxiliary_data,
                },
            ),
{
    let mut snapshots: Vec<Option<PipelineContext>> = Vec::new();
    let n = mailbox_is_full.len();
    let mut i: usize = 0;
    while i < n
        invariant
            world.wf(),
            animations.wf(),
            auxiliary_data.wf(),
            animation_auxiliary_data.wf(),
            n == mailbox_is_full@.len(),
            i <= n,
            snapshots@.len() == i,
            forall|j: int|
                0 <= j < i ==> ((#[trigger] snapshots@[j]) is None <==> mailbox_is_full@[j]),
            forall|j: int|
                0 <= j < i && !mailbox_is_full@[j] ==> is_snapshot_of(
                    (#[trigger] snapshots@[j])->0,
                    Sources {
                        world: *world,
                        animations: *animations,
                        auxiliary_data: *auxiliary_data,
                        animation_auxiliary_data: *animation_auxiliary_data,
                    },
                ),
        decreases n - i,
    {
        if mailbox_is_full[i] {
            snapshots.push(None);
        } else {
            snapshots.push(
                Some(aggregate(world, animations, auxiliary_data, animation_auxiliary_data)),
            );
        }
        i += 1;
    }
    snapshots
}

} // verus!
