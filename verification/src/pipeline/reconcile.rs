//! What changes on the device when one snapshot follows another.

use crate::auxiliary_data::AuxiliaryData;
use crate::id::{AnimationId, AuxiliaryId};
use crate::pipeline::binding::auxiliary_keys;
use crate::pipeline::entry::{spec_entry, PipelineAuxiliary, PipelineEntry};
use crate::pipeline::{auxiliary_buffer, spec_auxiliary_buffer, PipelineContext};
use crate::table::{text_views, Table};
use vstd::prelude::*;

verus! {

/// The test "present before, with another size than now".
pub open spec fn resized_test(prev: Table<AuxiliaryData>, next: Table<AuxiliaryData>) -> spec_fn(
    Seq<char>,
) -> bool {
    |k: Seq<char>| prev.contains(k) && prev.value_of(k).size != next.value_of(k).size
}

/// The test "the animation's target has no LED count in the snapshot".
pub open spec fn unresolved_test(next: PipelineContext) -> spec_fn(Seq<char>) -> bool {
    |k: Seq<char>| !next.num_leds.contains(next.animations.value_of(k)@.target.key())
}

/// Auxiliaries of the previous snapshot that the new one lacks, in the
/// previous order.
pub open spec fn removed_auxiliaries(prev: Option<PipelineContext>, next: PipelineContext) -> Seq<
    Seq<char>,
> {
    match prev {
        Some(p) => p.auxiliary_data.keys_missing_from(&next.auxiliary_data),
        None => Seq::empty(),
    }
}

/// Auxiliaries of both snapshots whose size differs, in the new order.
pub open spec fn resized_auxiliaries(prev: Option<PipelineContext>, next: PipelineContext) -> Seq<
    Seq<char>,
> {
    match prev {
        Some(p) => next.auxiliary_data.keys().filter(
            resized_test(p.auxiliary_data, next.auxiliary_data),
        ),
        None => Seq::empty(),
    }
}

/// Auxiliaries of the new snapshot that the previous one lacks, in the new
/// order; all of them where there is no previous snapshot.
pub open spec fn added_auxiliaries(prev: Option<PipelineContext>, next: PipelineContext) -> Seq<
    Seq<char>,
> {
    match prev {
        Some(p) => next.auxiliary_data.keys_missing_from(&p.auxiliary_data),
        None => next.auxiliary_data.keys(),
    }
}

/// Animations of the previous snapshot that the new one lacks, in the
/// previous order.
pub open spec fn removed_animations(prev: Option<PipelineContext>, next: PipelineContext) -> Seq<
    Seq<char>,
> {
    match prev {
        Some(p) => p.animations.keys_missing_from(&next.animations),
        None => Seq::empty(),
    }
}

/// Animations of the new snapshot that the previous one lacks, in the new
/// order; all of them where there is no previous snapshot.
pub open spec fn added_animations(prev: Option<PipelineContext>, next: PipelineContext) -> Seq<
    Seq<char>,
> {
    match prev {
        Some(p) => next.animations.keys_missing_from(&p.animations),
        None => next.animations.keys(),
    }
}

/// Every animation that the new snapshot adds has a target with an LED
/// count in it.
pub open spec fn additions_resolve(prev: Option<PipelineContext>, next: PipelineContext) -> bool {
    forall|i: int|
        0 <= i < added_animations(prev, next).len() ==> !unresolved_test(next)(
            #[trigger] added_animations(prev, next)[i],
        )
}

/// The position of the first added animation whose target has no LED count.
pub open spec fn is_first_unresolved(
    prev: Option<PipelineContext>,
    next: PipelineContext,
    at: int,
) -> bool {
    &&& 0 <= at < added_animations(prev, next).len()
    &&& unresolved_test(next)(added_animations(prev, next)[at])
    &&& forall|j: int| 0 <= j < at ==> !unresolved_test(next)(#[trigger] added_animations(prev, next)[j])
}

/// Membership in each list of changes, said by the snapshots alone.
pub proof fn lemma_changes_membership(prev: PipelineContext, next: PipelineContext)
    ensures
        forall|k: Seq<char>| #[trigger]
            removed_auxiliaries(Some(prev), next).contains(k) <==> prev.auxiliary_data.contains(k)
                && !next.auxiliary_data.contains(k),
        forall|k: Seq<char>| #[trigger]
            added_auxiliaries(Some(prev), next).contains(k) <==> next.auxiliary_data.contains(k)
                && !prev.auxiliary_data.contains(k),
        forall|k: Seq<char>| #[trigger]
            resized_auxiliaries(Some(prev), next).contains(k) <==> next.auxiliary_data.contains(k)
                && prev.auxiliary_data.contains(k) && prev.auxiliary_data.value_of(k).size
                != next.auxiliary_data.value_of(k).size,
        forall|k: Seq<char>| #[trigger]
            removed_animations(Some(prev), next).contains(k) <==> prev.animations.contains(k)
                && !next.animations.contains(k),
        forall|k: Seq<char>| #[trigger]
            added_animations(Some(prev), next).contains(k) <==> next.animations.contains(k)
                && !prev.animations.contains(k),
{
    assert forall|k: Seq<char>| #[trigger]
        removed_auxiliaries(Some(prev), next).contains(k) <==> prev.auxiliary_data.contains(k)
            && !next.auxiliary_data.contains(k) by {
        crate::table::lemma_filter_membership(
            prev.auxiliary_data.keys(),
            Table::<AuxiliaryData>::missing_in(next.auxiliary_data),
            k,
        );
    }
    assert forall|k: Seq<char>| #[trigger]
        added_auxiliaries(Some(prev), next).contains(k) <==> next.auxiliary_data.contains(k)
            && !prev.auxiliary_data.contains(k) by {
        crate::table::lemma_filter_membership(
            next.auxiliary_data.keys(),
            Table::<AuxiliaryData>::missing_in(prev.auxiliary_data),
            k,
        );
    }
    assert forall|k: Seq<char>| #[trigger]
        resized_auxiliaries(Some(prev), next).contains(k) <==> next.auxiliary_data.contains(k)
            && prev.auxiliary_data.contains(k) && prev.auxiliary_data.value_of(k).size
            != next.auxiliary_data.value_of(k).size by {
        crate::table::lemma_filter_membership(
            next.auxiliary_data.keys(),
            resized_test(prev.auxiliary_data, next.auxiliary_data),
            k,
        );
    }
    assert forall|k: Seq<char>| #[trigger]
        removed_animations(Some(prev), next).contains(k) <==> prev.animations.contains(k)
            && !next.animations.contains(k) by {
        crate::table::lemma_filter_membership(
            prev.animations.keys(),
            Table::<crate::animation::Animation>::missing_in(next.animations),
            k,
        );
    }
    assert forall|k: Seq<char>| #[trigger]
        added_animations(Some(prev), next).contains(k) <==> next.animations.contains(k)
            && !prev.animations.contains(k) by {
        crate::table::lemma_filter_membership(
            next.animations.keys(),
            Table::<crate::animation::Animation>::missing_in(prev.animations),
            k,
        );
    }
}

/// Every added animation and every added or resized auxiliary is in the new
/// snapshot, and no added animation is listed twice.
pub proof fn lemma_changes_in_snapshot(prev: Option<PipelineContext>, next: PipelineContext)
    requires
        next.wf(),
    ensures
        forall|i: int|
            0 <= i < added_auxiliaries(prev, next).len() ==> next.auxiliary_data.contains(
                #[trigger] added_auxiliaries(prev, next)[i],
            ),
        forall|i: int|
            0 <= i < resized_auxiliaries(prev, next).len() ==> next.auxiliary_data.contains(
                #[trigger] resized_auxiliaries(prev, next)[i],
            ),
        forall|i: int|
            0 <= i < added_animations(prev, next).len() ==> next.animations.contains(
                #[trigger] added_animations(prev, next)[i],
            ),
        added_animations(prev, next).no_duplicates(),
{
    match prev {
        Some(p) => {
            lemma_changes_membership(p, next);
            assert forall|i: int| 0 <= i < added_auxiliaries(prev, next).len() implies next.auxiliary_data.contains(
                #[trigger] added_auxiliaries(prev, next)[i],
            ) by {
                assert(added_auxiliaries(prev, next).contains(added_auxiliaries(prev, next)[i]));
            }
            assert forall|i: int| 0 <= i < resized_auxiliaries(prev, next).len() implies next.auxiliary_data.contains(
                #[trigger] resized_auxiliaries(prev, next)[i],
            ) by {
                assert(resized_auxiliaries(prev, next).contains(resized_auxiliaries(prev, next)[i]));
            }
            assert forall|i: int| 0 <= i < added_animations(prev, next).len() implies next.animations.contains(
                #[trigger] added_animations(prev, next)[i],
            ) by {
                assert(added_animations(prev, next).contains(added_animations(prev, next)[i]));
            }
            crate::table::lemma_filter_distinct(
                next.animations.keys(),
                Table::<crate::animation::Animation>::missing_in(p.animations),
            );
        },
        None => {
            assert forall|i: int| 0 <= i < added_auxiliaries(prev, next).len() implies next.auxiliary_data.contains(
                #[trigger] added_auxiliaries(prev, next)[i],
            ) by {
                next.auxiliary_data.lemma_index_of(i);
            }
            assert forall|i: int| 0 <= i < added_animations(prev, next).len() implies next.animations.contains(
                #[trigger] added_animations(prev, next)[i],
            ) by {
                next.animations.lemma_index_of(i);
            }
        },
    }
}

/// The auxiliary buffers after reconciliation: those that were resident and
/// are neither removed nor resized, as they were; and one for each added or
/// resized auxiliary, sized from the new snapshot.
pub open spec fn buffers_reconciled(
    before: Table<PipelineAuxiliary>,
    after: Table<PipelineAuxiliary>,
    prev: Option<PipelineContext>,
    next: PipelineContext,
) -> bool {
    let removed = removed_auxiliaries(prev, next);
    let resized = resized_auxiliaries(prev, next);
    let added = added_auxiliaries(prev, next);
    &&& after.wf()
    &&& forall|k: Seq<char>| #[trigger]
        after.contains(k) <==> (before.contains(k) && !removed.contains(k) && !resized.contains(k))
            || added.contains(k) || resized.contains(k)
    &&& forall|k: Seq<char>|
        added.contains(k) || resized.contains(k) ==> #[trigger] after.value_of(k)
            == spec_auxiliary_buffer(next.auxiliary_data.value_of(k)@)
    &&& forall|k: Seq<char>|
        before.contains(k) && !removed.contains(k) && !resized.contains(k) && !added.contains(k)
            ==> #[trigger] after.value_of(k) == before.value_of(k)
}

/// The shader table after reconciliation: the shaders that were resident
/// and are not removed, as they were; and one for each added animation,
/// sized from the new snapshot.
pub open spec fn shaders_reconciled(
    before: Table<PipelineEntry>,
    after: Table<PipelineEntry>,
    prev: Option<PipelineContext>,
    next: PipelineContext,
    leds_per_compute_group: u32,
) -> bool {
    let removed = removed_animations(prev, next);
    let added = added_animations(prev, next);
    &&& after.wf()
    &&& forall|k: Seq<char>| #[trigger]
        after.contains(k) <==> (before.contains(k) && !removed.contains(k)) || added.contains(k)
    &&& forall|k: Seq<char>|
        added.contains(k) ==> (#[trigger] after.value_of(k))@ == spec_entry(
            k,
            next.animations.value_of(k)@,
            next.num_leds.value_of(next.animations.value_of(k)@.target.key()),
            leds_per_compute_group,
        )
    &&& forall|k: Seq<char>|
        before.contains(k) && !removed.contains(k) && !added.contains(k)
            ==> #[trigger] after.value_of(k) == before.value_of(k)
}

/// What `before_frame` changed, for the owner of the device to carry out in
/// this order: free the removed auxiliaries; free the resized ones; allocate
/// the added and then the resized ones; free the removed shaders; build the
/// added ones; flushing the device queue after each step that did anything.
#[derive(Debug)]
pub struct Reconciliation {
    pub removed_auxiliaries: Vec<AuxiliaryId>,
    pub resized_auxiliaries: Vec<AuxiliaryId>,
    pub added_auxiliaries: Vec<AuxiliaryId>,
    pub removed_animations: Vec<AnimationId>,
    pub added_animations: Vec<AnimationId>,
}

/// The text of each identifier of a list.
pub open spec fn animation_keys(ids: Seq<AnimationId>) -> Seq<Seq<char>> {
    ids.map_values(|id: AnimationId| id@)
}

impl Reconciliation {
    /// The lists are those by which `next` differs from `prev`.
    pub open spec fn describes(&self, prev: Option<PipelineContext>, next: PipelineContext) -> bool {
        &&& auxiliary_keys(self.removed_auxiliaries@) == removed_auxiliaries(prev, next)
        &&& auxiliary_keys(self.resized_auxiliaries@) == resized_auxiliaries(prev, next)
        &&& auxiliary_keys(self.added_auxiliaries@) == added_auxiliaries(prev, next)
        &&& animation_keys(self.removed_animations@) == removed_animations(prev, next)
        &&& animation_keys(self.added_animations@) == added_animations(prev, next)
    }

    /// Whether nothing changed.
    pub fn is_empty(&self) -> (empty: bool)
        ensures
            empty == (self.removed_auxiliaries@.len() == 0 && self.resized_auxiliaries@.len() == 0
                && self.added_auxiliaries@.len() == 0 && self.removed_animations@.len() == 0
                && self.added_animations@.len() == 0),
    {
        self.removed_auxiliaries.len() == 0 && self.resized_auxiliaries.len() == 0
            && self.added_auxiliaries.len() == 0 && self.removed_animations.len() == 0
            && self.added_animations.len() == 0
    }
}

/// One thing for the owner of the device to do.
#[derive(Debug)]
pub enum PipelineChange {
    /// Free the buffer of the auxiliary.
    AuxiliaryRemoved(AuxiliaryId),
    /// Allocate the buffer of the auxiliary.
    AuxiliaryAdded(AuxiliaryId),
    /// Free what the shader of the animation has on the device.
    ShaderRemoved(AnimationId),
    /// Build the shader of the animation and its buffers.
    ShaderAdded(AnimationId),
    /// Flush the device queue and wait for the device.
    Flush,
}

/// A change, apart from how it is stored.
pub enum ChangeView {
    AuxiliaryRemoved(Seq<char>),
    AuxiliaryAdded(Seq<char>),
    ShaderRemoved(Seq<char>),
    ShaderAdded(Seq<char>),
    Flush,
}

impl View for PipelineChange {
    type V = ChangeView;

    open spec fn view(&self) -> ChangeView {
        match self {
            PipelineChange::AuxiliaryRemoved(id) => ChangeView::AuxiliaryRemoved(id@),
            PipelineChange::AuxiliaryAdded(id) => ChangeView::AuxiliaryAdded(id@),
            PipelineChange::ShaderRemoved(id) => ChangeView::ShaderRemoved(id@),
            PipelineChange::ShaderAdded(id) => ChangeView::ShaderAdded(id@),
            PipelineChange::Flush => ChangeView::Flush,
        }
    }
}

/// The changes of a list, apart from how they are stored.
pub open spec fn change_views(changes: Seq<PipelineChange>) -> Seq<ChangeView> {
    changes.map_values(|c: PipelineChange| c@)
}

/// One change per auxiliary of `keys`, in order: its buffer is allocated
/// where `added`, and freed otherwise.
pub open spec fn auxiliary_changes(keys: Seq<Seq<char>>, added: bool) -> Seq<ChangeView> {
    Seq::new(
        keys.len(),
        |i: int|
            if added {
                ChangeView::AuxiliaryAdded(keys[i])
            } else {
                ChangeView::AuxiliaryRemoved(keys[i])
            },
    )
}

/// One change per animation of `keys`, in order: its shader is built where
/// `added`, and freed otherwise.
pub open spec fn shader_changes(keys: Seq<Seq<char>>, added: bool) -> Seq<ChangeView> {
    Seq::new(
        keys.len(),
        |i: int|
            if added {
                ChangeView::ShaderAdded(keys[i])
            } else {
                ChangeView::ShaderRemoved(keys[i])
            },
    )
}

/// A flush where something was done, and nothing otherwise.
pub open spec fn flush_after(done: nat) -> Seq<ChangeView> {
    if done > 0 {
        seq![ChangeView::Flush]
    } else {
        Seq::empty()
    }
}

/// The changes in the order they are carried out: the removed auxiliaries
/// are freed; the resized ones are freed; the added and then the resized
/// ones are allocated; the removed shaders are freed; the added ones are
/// built. The device queue is flushed after each of these steps that did
/// anything, but for the freeing of shaders.
pub open spec fn spec_steps(
    removed_auxiliaries: Seq<Seq<char>>,
    resized_auxiliaries: Seq<Seq<char>>,
    added_auxiliaries: Seq<Seq<char>>,
    removed_animations: Seq<Seq<char>>,
    added_animations: Seq<Seq<char>>,
) -> Seq<ChangeView> {
    auxiliary_changes(removed_auxiliaries, false) + flush_after(removed_auxiliaries.len())
        + auxiliary_changes(resized_auxiliaries, false) + flush_after(resized_auxiliaries.len())
        + auxiliary_changes(added_auxiliaries + resized_auxiliaries, true) + flush_after(
        added_auxiliaries.len() + resized_auxiliaries.len(),
    ) + shader_changes(removed_animations, false) + shader_changes(added_animations, true)
        + flush_after(added_animations.len())
}

/// Appends a change for each auxiliary of `ids`.
fn push_auxiliary_changes(out: &mut Vec<PipelineChange>, ids: &Vec<AuxiliaryId>, added: bool)
    ensures
        change_views(final(out)@) == change_views(old(out)@) + auxiliary_changes(
            auxiliary_keys(ids@),
            added,
        ),
{
    let n = ids.len();
    let mut i: usize = 0;
    let ghost all = auxiliary_changes(auxiliary_keys(ids@), added);
    assert(change_views(out@) =~= change_views(old(out)@) + all.subrange(0, 0));
    while i < n
        invariant
            n == ids@.len(),
            i <= n,
            all == auxiliary_changes(auxiliary_keys(ids@), added),
            change_views(out@) == change_views(old(out)@) + all.subrange(0, i as int),
        decreases n - i,
    {
        let ghost before = change_views(out@);
        let change = if added {
            PipelineChange::AuxiliaryAdded(ids[i].clone())
        } else {
            PipelineChange::AuxiliaryRemoved(ids[i].clone())
        };
        assert(change@ == all[i as int]);
        out.push(change);
        assert(change_views(out@) =~= before.push(all[i as int]));
        assert(change_views(out@) =~= change_views(old(out)@) + all.subrange(0, i + 1));
        i += 1;
    }
    assert(all.subrange(0, n as int) =~= all);
}

/// Appends a change for each animation of `ids`.
fn push_shader_changes(out: &mut Vec<PipelineChange>, ids: &Vec<AnimationId>, added: bool)
    ensures
        change_views(final(out)@) == change_views(old(out)@) + shader_changes(
            animation_keys(ids@),
            added,
        ),
{
    let n = ids.len();
    let mut i: usize = 0;
    let ghost all = shader_changes(animation_keys(ids@), added);
    assert(change_views(out@) =~= change_views(old(out)@) + all.subrange(0, 0));
    while i < n
        invariant
            n == ids@.len(),
            i <= n,
            all == shader_changes(animation_keys(ids@), added),
            change_views(out@) == change_views(old(out)@) + all.subrange(0, i as int),
        decreases n - i,
    {
        let ghost before = change_views(out@);
        let change = if added {
            PipelineChange::ShaderAdded(ids[i].clone())
        } else {
            PipelineChange::ShaderRemoved(ids[i].clone())
        };
        assert(change@ == all[i as int]);
        out.push(change);
        assert(change_views(out@) =~= before.push(all[i as int]));
        assert(change_views(out@) =~= change_views(old(out)@) + all.subrange(0, i + 1));
        i += 1;
    }
    assert(all.subrange(0, n as int) =~= all);
}

/// Appends a flush where `done`.
fn push_flush(out: &mut Vec<PipelineChange>, done: bool)
    ensures
        change_views(final(out)@) == change_views(old(out)@) + flush_after(
            if done {
                1nat
            } else {
                0nat
            },
        ),
{
    let ghost before = change_views(out@);
    if done {
        out.push(PipelineChange::Flush);
        assert(change_views(out@) =~= before + seq![ChangeView::Flush]);
    } else {
        assert(change_views(out@) =~= before + Seq::<ChangeView>::empty());
    }
}

impl Reconciliation {
    /// The changes, one by one, in the order they are carried out.
    pub fn steps(&self) -> (steps: Vec<PipelineChange>)
        ensures
            change_views(steps@) == spec_steps(
                auxiliary_keys(self.removed_auxiliaries@),
                auxiliary_keys(self.resized_auxiliaries@),
                auxiliary_keys(self.added_auxiliaries@),
                animation_keys(self.removed_animations@),
                animation_keys(self.added_animations@),
            ),
    {
        let mut steps: Vec<PipelineChange> = Vec::new();
        let ghost removed = auxiliary_keys(self.removed_auxiliaries@);
        let ghost resized = auxiliary_keys(self.resized_auxiliaries@);
        let ghost added = auxiliary_keys(self.added_auxiliaries@);
        assert(change_views(steps@) =~= Seq::<ChangeView>::empty());
        push_auxiliary_changes(&mut steps, &self.removed_auxiliaries, false);
        push_flush(&mut steps, self.removed_auxiliaries.len() > 0);
        push_auxiliary_changes(&mut steps, &self.resized_auxiliaries, false);
        push_flush(&mut steps, self.resized_auxiliaries.len() > 0);
        push_auxiliary_changes(&mut steps, &self.added_auxiliaries, true);
        push_auxiliary_changes(&mut steps, &self.resized_auxiliaries, true);
        push_flush(
            &mut steps,
            self.added_auxiliaries.len() > 0 || self.resized_auxiliaries.len() > 0,
        );
        push_shader_changes(&mut steps, &self.removed_animations, false);
        push_shader_changes(&mut steps, &self.added_animations, true);
        push_flush(&mut steps, self.added_animations.len() > 0);
        proof {
            assert(auxiliary_changes(added + resized, true) =~= auxiliary_changes(added, true)
                + auxiliary_changes(resized, true));
            assert(flush_after(removed.len()) == flush_after(
                if removed.len() > 0 {
                    1nat
                } else {
                    0nat
                },
            ));
            assert(change_views(steps@) =~= spec_steps(
                removed,
                resized,
                added,
                animation_keys(self.removed_animations@),
                animation_keys(self.added_animations@),
            ));
        }
        steps
    }
}

/// The auxiliaries of both tables whose size differs, in the order of
/// `next`.
pub fn resized_keys(prev: &Table<AuxiliaryData>, next: &Table<AuxiliaryData>) -> (resized: Vec<
    String,
>)
    requires
        prev.wf(),
        next.wf(),
    ensures
        text_views(resized@) == next.keys().filter(resized_test(*prev, *next)),
{
    let mut resized: Vec<String> = Vec::new();
    let n = next.len();
    let mut i: usize = 0;
    assert(next.keys().subrange(0, 0) =~= Seq::<Seq<char>>::empty());
    proof {
        crate::table::lemma_filter_empty(resized_test(*prev, *next));
    }
    assert(text_views(resized@) =~= Seq::<Seq<char>>::empty());
    while i < n
        invariant
            prev.wf(),
            next.wf(),
            n == next.keys().len(),
            i <= n,
            text_views(resized@) == next.keys().subrange(0, i as int).filter(
                resized_test(*prev, *next),
            ),
        decreases n - i,
    {
        let ghost before = text_views(resized@);
        let key = next.key_at(i);
        proof {
            let front = next.keys().subrange(0, i as int);
            assert(next.keys().subrange(0, i + 1) =~= front.push(next.keys()[i as int]));
            front.lemma_filter_push(next.keys()[i as int], resized_test(*prev, *next));
            next.lemma_index_of(i as int);
        }
        match prev.get(key) {
            Some(previous) => {
                if previous.size != next.value_at(i).size {
                    resized.push(key.clone());
                    assert(text_views(resized@) =~= before.push(next.keys()[i as int]));
                }
            },
            None => {},
        }
        i += 1;
    }
    assert(next.keys().subrange(0, n as int) =~= next.keys());
    resized
}

/// Copies the keys of a table, in table order.
pub fn all_keys<V>(table: &Table<V>) -> (keys: Vec<String>)
    requires
        table.wf(),
    ensures
        text_views(keys@) == table.keys(),
{
    let mut keys: Vec<String> = Vec::new();
    let n = table.len();
    let mut i: usize = 0;
    while i < n
        invariant
            table.wf(),
            n == table.keys().len(),
            i <= n,
            text_views(keys@) == table.keys().subrange(0, i as int),
        decreases n - i,
    {
        let ghost before = text_views(keys@);
        keys.push(table.key_at(i).clone());
        assert(text_views(keys@) =~= before.push(table.keys()[i as int]));
        assert(table.keys().subrange(0, i + 1) =~= before.push(table.keys()[i as int]));
        i += 1;
    }
    assert(table.keys().subrange(0, n as int) =~= table.keys());
    keys
}

/// The auxiliary identifiers with the given texts.
pub fn auxiliary_ids(keys: &Vec<String>) -> (ids: Vec<AuxiliaryId>)
    ensures
        auxiliary_keys(ids@) == text_views(keys@),
{
    let mut ids: Vec<AuxiliaryId> = Vec::new();
    let n = keys.len();
    let mut i: usize = 0;
    while i < n
        invariant
            n == keys@.len(),
            i <= n,
            auxiliary_keys(ids@) == text_views(keys@).subrange(0, i as int),
        decreases n - i,
    {
        let ghost before = auxiliary_keys(ids@);
        ids.push(AuxiliaryId::new_from(keys[i].clone()));
        assert(auxiliary_keys(ids@) =~= before.push(keys@[i as int]@));
        assert(text_views(keys@).subrange(0, i + 1) =~= before.push(keys@[i as int]@));
        i += 1;
    }
    assert(text_views(keys@).subrange(0, n as int) =~= text_views(keys@));
    ids
}

/// The animation identifiers with the given texts.
pub fn animation_ids(keys: &Vec<String>) -> (ids: Vec<AnimationId>)
    ensures
        animation_keys(ids@) == text_views(keys@),
{
    let mut ids: Vec<AnimationId> = Vec::new();
    let n = keys.len();
    let mut i: usize = 0;
    while i < n
        invariant
            n == keys@.len(),
            i <= n,
            animation_keys(ids@) == text_views(keys@).subrange(0, i as int),
        decreases n - i,
    {
        let ghost before = animation_keys(ids@);
        ids.push(AnimationId::new_from(keys[i].clone()));
        assert(animation_keys(ids@) =~= before.push(keys@[i as int]@));
        assert(text_views(keys@).subrange(0, i + 1) =~= before.push(keys@[i as int]@));
        i += 1;
    }
    assert(text_views(keys@).subrange(0, n as int) =~= text_views(keys@));
    ids
}

/// `after` is `before` with a buffer for each of `keys`, sized from
/// `source`; every other buffer is as it was.
pub open spec fn buffers_added(
    before: Table<PipelineAuxiliary>,
    after: Table<PipelineAuxiliary>,
    source: Table<AuxiliaryData>,
    keys: Seq<Seq<char>>,
) -> bool {
    &&& after.wf()
    &&& forall|k: Seq<char>| #[trigger] after.contains(k) <==> before.contains(k) || keys.contains(k)
    &&& forall|k: Seq<char>|
        keys.contains(k) ==> #[trigger] after.value_of(k) == spec_auxiliary_buffer(
            source.value_of(k)@,
        )
    &&& forall|k: Seq<char>|
        before.contains(k) && !keys.contains(k) ==> #[trigger] after.value_of(k)
            == before.value_of(k)
}

/// Records a buffer for each auxiliary of `keys`, sized from `source`.
pub fn add_buffers(
    table: &mut Table<PipelineAuxiliary>,
    source: &Table<AuxiliaryData>,
    keys: &Vec<String>,
)
    requires
        old(table).wf(),
        source.wf(),
        forall|i: int| 0 <= i < keys@.len() ==> source.contains(#[trigger] text_views(keys@)[i]),
    ensures
        buffers_added(*old(table), *final(table), *source, text_views(keys@)),
{
    let n = keys.len();
    let mut i: usize = 0;
    while i < n
        invariant
            source.wf(),
            n == keys@.len(),
            i <= n,
            forall|j: int| 0 <= j < keys@.len() ==> source.contains(#[trigger] text_views(keys@)[j]),
            buffers_added(*old(table), *table, *source, text_views(keys@).subrange(0, i as int)),
        decreases n - i,
    {
        let ghost before = *table;
        let ghost done = text_views(keys@).subrange(0, i as int);
        let ghost next = text_views(keys@).subrange(0, i + 1);
        let key = &keys[i];
        assert(text_views(keys@)[i as int] == key@);
        match source.get(key) {
            Some(data) => {
                table.insert(key.clone(), auxiliary_buffer(data));
            },
            None => {},
        }
        proof {
            assert(next =~= done.push(key@));
            assert(next[i as int] == key@);
            assert forall|k: Seq<char>| #[trigger] next.contains(k) <==> done.contains(k) || k
                == key@ by {
                if next.contains(k) {
                    let j = choose|j: int| 0 <= j < next.len() && next[j] == k;
                    if j < i {
                        assert(done[j] == k);
                    }
                }
                if done.contains(k) {
                    let j = choose|j: int| 0 <= j < done.len() && done[j] == k;
                    assert(next[j] == k);
                }
            }
            assert forall|k: Seq<char>| #[trigger]
                table.contains(k) <==> old(table).contains(k) || next.contains(k) by {
                if k != key@ {
                    assert(table.contains(k) <==> before.contains(k));
                }
            }
            assert forall|k: Seq<char>| next.contains(k) implies #[trigger] table.value_of(k)
                == spec_auxiliary_buffer(source.value_of(k)@) by {
                if k != key@ {
                    assert(done.contains(k));
                    assert(before.contains(k));
                    assert(table.value_of(k) == before.value_of(k));
                }
            }
            assert forall|k: Seq<char>|
                old(table).contains(k) && !next.contains(k) implies #[trigger] table.value_of(k)
                == old(table).value_of(k) by {
                assert(before.contains(k));
                assert(table.value_of(k) == before.value_of(k));
            }
        }
        i += 1;
    }
    assert(text_views(keys@).subrange(0, n as int) =~= text_views(keys@));
}

/// `after` is `before` with the shader of each animation of `keys`, sized
/// from `context`; every other shader is as it was.
pub open spec fn shaders_added(
    before: Table<PipelineEntry>,
    after: Table<PipelineEntry>,
    context: PipelineContext,
    leds_per_compute_group: u32,
    keys: Seq<Seq<char>>,
) -> bool {
    &&& after.wf()
    &&& forall|k: Seq<char>| #[trigger] after.contains(k) <==> before.contains(k) || keys.contains(k)
    &&& forall|k: Seq<char>|
        keys.contains(k) ==> (#[trigger] after.value_of(k))@ == spec_entry(
            k,
            context.animations.value_of(k)@,
            context.num_leds.value_of(context.animations.value_of(k)@.target.key()),
            leds_per_compute_group,
        )
    &&& forall|k: Seq<char>|
        before.contains(k) && !keys.contains(k) ==> #[trigger] after.value_of(k)
            == before.value_of(k)
}

/// Registers the shader of each animation of `keys`, sized from `context`.
pub fn add_entries(
    table: &mut Table<PipelineEntry>,
    context: &PipelineContext,
    leds_per_compute_group: u32,
    keys: &Vec<String>,
)
    requires
        old(table).wf(),
        context.wf(),
        forall|i: int|
            0 <= i < keys@.len() ==> context.animations.contains(#[trigger] text_views(keys@)[i])
                && !unresolved_test(*context)(text_views(keys@)[i]),
    ensures
        shaders_added(
            *old(table),
            *final(table),
            *context,
            leds_per_compute_group,
            text_views(keys@),
        ),
{
    let n = keys.len();
    let mut i: usize = 0;
    while i < n
        invariant
            context.wf(),
            n == keys@.len(),
            i <= n,
            forall|j: int|
                0 <= j < keys@.len() ==> context.animations.contains(
                    #[trigger] text_views(keys@)[j],
                ) && !unresolved_test(*context)(text_views(keys@)[j]),
            shaders_added(
                *old(table),
                *table,
                *context,
                leds_per_compute_group,
                text_views(keys@).subrange(0, i as int),
            ),
        decreases n - i,
    {
        let ghost before = *table;
        let ghost done = text_views(keys@).subrange(0, i as int);
        let ghost next = text_views(keys@).subrange(0, i + 1);
        let key = &keys[i];
        assert(text_views(keys@)[i as int] == key@);
        match context.animations.get(key) {
            Some(animation) => {
                let target_id = animation.get_target_type().target_id();
                match context.num_leds.get(&target_id) {
                    Some(num_leds) => {
                        let entry = PipelineEntry::new(
                            AnimationId::new_from(key.clone()),
                            animation,
                            *num_leds,
                            leds_per_compute_group,
                        );
                        table.insert(key.clone(), entry);
                    },
                    None => {},
                }
            },
            None => {},
        }
        proof {
            assert(next =~= done.push(key@));
            assert(next[i as int] == key@);
            assert forall|k: Seq<char>| #[trigger] next.contains(k) <==> done.contains(k) || k
                == key@ by {
                if next.contains(k) {
                    let j = choose|j: int| 0 <= j < next.len() && next[j] == k;
                    if j < i {
                        assert(done[j] == k);
                    }
                }
                if done.contains(k) {
                    let j = choose|j: int| 0 <= j < done.len() && done[j] == k;
                    assert(next[j] == k);
                }
            }
            assert forall|k: Seq<char>| #[trigger]
                table.contains(k) <==> old(table).contains(k) || next.contains(k) by {
                if k != key@ {
                    assert(table.contains(k) <==> before.contains(k));
                }
            }
            assert forall|k: Seq<char>| next.contains(k) implies (#[trigger] table.value_of(k))@
                == spec_entry(
                k,
                context.animations.value_of(k)@,
                context.num_leds.value_of(context.animations.value_of(k)@.target.key()),
                leds_per_compute_group,
            ) by {
                if k != key@ {
                    assert(done.contains(k));
                    assert(before.contains(k));
                    assert(table.value_of(k) == before.value_of(k));
                }
            }
            assert forall|k: Seq<char>|
                old(table).contains(k) && !next.contains(k) implies #[trigger] table.value_of(k)
                == old(table).value_of(k) by {
                assert(before.contains(k));
                assert(table.value_of(k) == before.value_of(k));
            }
        }
        i += 1;
    }
    assert(text_views(keys@).subrange(0, n as int) =~= text_views(keys@));
}

} // verus!
