//! What is bound to each auxiliary slot of a shader.

use crate::auxiliary_data::{aux_data_consumer_type_is_compatible, AuxiliaryDataTypeConsumer};
use crate::id::AuxiliaryId;
use crate::pipeline::entry::PipelineAuxiliary;
use crate::table::Table;
use vstd::prelude::*;

verus! {

/// Why a slot gets the stand-in buffer of its shape.
#[derive(Debug, Clone, Copy, PartialEq, Eq, Structural)]
pub enum Substitution {
    /// No auxiliary is mapped to the slot.
    Unmapped,
    /// The mapped auxiliary has no resident buffer.
    Missing,
    /// The mapped auxiliary has another shape than the slot.
    WrongType,
}

/// What one auxiliary slot is bound to.
#[derive(Debug)]
pub enum AuxiliaryBinding {
    /// The resident buffer of the auxiliary.
    Live(AuxiliaryId),
    /// The stand-in buffer of the slot's shape.
    Empty(AuxiliaryDataTypeConsumer, Substitution),
}

/// A binding, apart from how it is stored.
pub enum BindingView {
    Live(Seq<char>),
    Empty(AuxiliaryDataTypeConsumer, Substitution),
}

impl View for AuxiliaryBinding {
    type V = BindingView;

    open spec fn view(&self) -> BindingView {
        match self {
            AuxiliaryBinding::Live(id) => BindingView::Live(id@),
            AuxiliaryBinding::Empty(kind, cause) => BindingView::Empty(*kind, *cause),
        }
    }
}

/// The text of each identifier of a list.
pub open spec fn auxiliary_keys(ids: Seq<AuxiliaryId>) -> Seq<Seq<char>> {
    ids.map_values(|id: AuxiliaryId| id@)
}

/// What slot `slot`, which expects `required`, is bound to when `mapped`
/// lists the auxiliaries of the shader by slot and `buffers` are the resident
/// auxiliary buffers: the buffer of the mapped auxiliary where there is one
/// of the expected shape, the stand-in of the shape otherwise.
pub open spec fn spec_binding(
    required: AuxiliaryDataTypeConsumer,
    slot: int,
    mapped: Seq<Seq<char>>,
    buffers: Table<PipelineAuxiliary>,
) -> BindingView {
    if slot >= mapped.len() {
        BindingView::Empty(required, Substitution::Unmapped)
    } else if !buffers.contains(mapped[slot]) {
        BindingView::Empty(required, Substitution::Missing)
    } else if buffers.value_of(mapped[slot]).aux_type != required {
        BindingView::Empty(required, Substitution::WrongType)
    } else {
        BindingView::Live(mapped[slot])
    }
}

/// The bindings of every slot of a shader that expects `required`.
pub open spec fn spec_bindings(
    required: Seq<AuxiliaryDataTypeConsumer>,
    mapped: Seq<Seq<char>>,
    buffers: Table<PipelineAuxiliary>,
) -> Seq<BindingView> {
    Seq::new(required.len(), |slot: int| spec_binding(required[slot], slot, mapped, buffers))
}

/// The text of each binding of a list.
pub open spec fn binding_views(bindings: Seq<AuxiliaryBinding>) -> Seq<BindingView> {
    bindings.map_values(|b: AuxiliaryBinding| b@)
}

/// Every slot is bound: to a resident buffer of the expected shape that is
/// mapped to the slot, or to the stand-in of the expected shape.
pub open spec fn fully_bound(
    bindings: Seq<BindingView>,
    required: Seq<AuxiliaryDataTypeConsumer>,
    mapped: Seq<Seq<char>>,
    buffers: Table<PipelineAuxiliary>,
) -> bool {
    &&& bindings.len() == required.len()
    &&& forall|slot: int|
        0 <= slot < required.len() ==> match #[trigger] bindings[slot] {
            BindingView::Live(id) => slot < mapped.len() && mapped[slot] == id && buffers.contains(
                id,
            ) && buffers.value_of(id).aux_type == required[slot],
            BindingView::Empty(kind, _) => kind == required[slot],
        }
}

/// The bindings decided for a shader leave no slot unbound: each slot has
/// the resident buffer of the auxiliary mapped to it, where that buffer has
/// the shape the slot expects, and the stand-in of that shape otherwise.
pub proof fn lemma_bindings_fully_bound(
    required: Seq<AuxiliaryDataTypeConsumer>,
    mapped: Seq<Seq<char>>,
    buffers: Table<PipelineAuxiliary>,
)
    ensures
        fully_bound(spec_bindings(required, mapped, buffers), required, mapped, buffers),
{
}

/// Decides what each auxiliary slot of a shader is bound to. No slot is left
/// unbound: a slot whose auxiliary is unmapped, has no buffer or has another
/// shape gets the stand-in buffer of the slot's shape.
pub fn resolve_bindings(
    required: &Vec<AuxiliaryDataTypeConsumer>,
    mapped: &Vec<AuxiliaryId>,
    buffers: &Table<PipelineAuxiliary>,
) -> (bindings: Vec<AuxiliaryBinding>)
    requires
        buffers.wf(),
    ensures
        binding_views(bindings@) == spec_bindings(required@, auxiliary_keys(mapped@), *buffers),
        fully_bound(binding_views(bindings@), required@, auxiliary_keys(mapped@), *buffers),
{
    let mut bindings: Vec<AuxiliaryBinding> = Vec::new();
    let n = required.len();
    let mut slot: usize = 0;
    while slot < n
        invariant
            buffers.wf(),
            n == required@.len(),
            slot <= n,
            bindings@.len() == slot,
            forall|i: int|
                0 <= i < slot ==> (#[trigger] bindings@[i])@ == spec_binding(
                    required@[i],
                    i,
                    auxiliary_keys(mapped@),
                    *buffers,
                ),
        decreases n - slot,
    {
        let kind = required[slot];
        let binding = if slot >= mapped.len() {
            AuxiliaryBinding::Empty(kind, Substitution::Unmapped)
        } else {
            let id = &mapped[slot];
            assert(auxiliary_keys(mapped@)[slot as int] == id@);
            match buffers.get(id.key()) {
                None => AuxiliaryBinding::Empty(kind, Substitution::Missing),
                Some(buffer) => {
                    if aux_data_consumer_type_is_compatible(&buffer.aux_type, &kind) {
                        AuxiliaryBinding::Live(id.clone())
                    } else {
                        AuxiliaryBinding::Empty(kind, Substitution::WrongType)
                    }
                },
            }
        };
        bindings.push(binding);
        slot += 1;
    }
    assert(binding_views(bindings@) =~= spec_bindings(
        required@,
        auxiliary_keys(mapped@),
        *buffers,
    ));
    bindings
}

} // verus!
