//! The auxiliary data manager: the current value of every auxiliary, and
//! which auxiliaries feed which animation.

use crate::auxiliary_data::{AuxiliaryData, AuxiliaryDataType, AuxiliaryDataTypeConsumer};
use crate::devices::auxiliary_data::AuxDeviceData;
use crate::devices::manager::DeviceKind;
use crate::id::{AnimationId, AuxiliaryId, DeviceId};
use crate::pipeline::binding::auxiliary_keys;
use crate::state::{copy_auxiliaries, copy_mappings};
use crate::table::Table;
use vstd::prelude::*;

verus! {

/// An auxiliary could not be added.
#[derive(Debug)]
pub enum AddAuxiliaryError {
    AuxiliaryExists(AuxiliaryId),
}

/// How a new auxiliary starts. Scalars are given by their bit patterns.
#[derive(Debug, Clone, Copy, PartialEq, Eq, Structural)]
pub enum AuxiliaryConfigParams {
    Empty,
    F32 { initial_value: u32, min_value: u32, max_value: u32 },
    F32Vec,
    F32Vec2,
    F32Vec3,
    F32Vec4,
}

impl AuxiliaryConfigParams {
    /// The shape that the parameters are for.
    pub open spec fn spec_kind(self) -> AuxiliaryDataTypeConsumer {
        match self {
            AuxiliaryConfigParams::Empty => AuxiliaryDataTypeConsumer::Empty,
            AuxiliaryConfigParams::F32 { .. } => AuxiliaryDataTypeConsumer::F32,
            AuxiliaryConfigParams::F32Vec => AuxiliaryDataTypeConsumer::F32Vec,
            AuxiliaryConfigParams::F32Vec2 => AuxiliaryDataTypeConsumer::F32Vec2,
            AuxiliaryConfigParams::F32Vec3 => AuxiliaryDataTypeConsumer::F32Vec3,
            AuxiliaryConfigParams::F32Vec4 => AuxiliaryDataTypeConsumer::F32Vec4,
        }
    }

    /// Whether the parameters are for the shape `aux_type`.
    pub fn is_compatible(&self, aux_type: AuxiliaryDataTypeConsumer) -> (ok: bool)
        ensures
            ok == (self.spec_kind() == aux_type),
    {
        match self {
            AuxiliaryConfigParams::Empty => matches!(aux_type, AuxiliaryDataTypeConsumer::Empty),
            AuxiliaryConfigParams::F32 { .. } => matches!(aux_type, AuxiliaryDataTypeConsumer::F32),
            AuxiliaryConfigParams::F32Vec => matches!(aux_type, AuxiliaryDataTypeConsumer::F32Vec),
            AuxiliaryConfigParams::F32Vec2 => matches!(
                aux_type,
                AuxiliaryDataTypeConsumer::F32Vec2
            ),
            AuxiliaryConfigParams::F32Vec3 => matches!(
                aux_type,
                AuxiliaryDataTypeConsumer::F32Vec3
            ),
            AuxiliaryConfigParams::F32Vec4 => matches!(
                aux_type,
                AuxiliaryDataTypeConsumer::F32Vec4
            ),
        }
    }
}

/// The value that an auxiliary of shape `aux_type` starts with under
/// `params`: the default of the shape, but for a scalar with scalar
/// parameters its initial value.
pub open spec fn spec_initial_value(
    aux_type: AuxiliaryDataTypeConsumer,
    params: AuxiliaryConfigParams,
) -> crate::auxiliary_data::AuxValue {
    match params {
        AuxiliaryConfigParams::F32 { initial_value, min_value, max_value } => if aux_type
            == AuxiliaryDataTypeConsumer::F32 {
            crate::auxiliary_data::AuxValue {
                kind: AuxiliaryDataTypeConsumer::F32,
                dims: Seq::empty(),
                values: seq![initial_value],
            }
        } else {
            aux_type.spec_default_value()
        },
        _ => aux_type.spec_default_value(),
    }
}

/// What came out of the data channel of an auxiliary device.
#[derive(Debug)]
pub enum AuxiliaryReceive {
    /// A new value.
    Data(AuxDeviceData),
    /// Nothing yet.
    Empty,
    /// The channel is closed.
    Closed,
    /// Values were missed: how many frames of them.
    Lagged(u64),
}

/// What the manager did with what came out of a channel.
#[derive(Debug, Clone, Copy, PartialEq, Eq, Structural)]
pub enum AuxiliaryOutcome {
    /// The auxiliary has the new value.
    Updated,
    /// The value was for an auxiliary that does not exist; it was dropped.
    UnknownAuxiliary,
    /// There was nothing to do.
    Nothing,
    /// The channel was closed; its slot is dropped.
    ChannelDropped,
    /// Values were missed: how many frames of them. Nothing changed.
    Lagged(u64),
}

/// The auxiliary data manager.
#[derive(Debug)]
pub struct AuxiliaryDataManager {
    animation_auxiliary_sources: Table<Vec<AuxiliaryId>>,
    auxiliary_data_buffers: Table<bool>,
    auxiliary_data: Table<AuxiliaryData>,
}

impl AuxiliaryDataManager {
    /// The auxiliaries of each animation, by slot.
    pub closed spec fn sources(&self) -> Table<Vec<AuxiliaryId>> {
        self.animation_auxiliary_sources
    }

    /// The devices whose data channel the manager reads.
    pub closed spec fn channels(&self) -> Table<bool> {
        self.auxiliary_data_buffers
    }

    /// The current value of each auxiliary.
    pub closed spec fn data(&self) -> Table<AuxiliaryData> {
        self.auxiliary_data
    }

    /// The tables are well formed.
    pub open spec fn wf(&self) -> bool {
        &&& self.sources().wf()
        &&& self.channels().wf()
        &&& self.data().wf()
    }

    /// A manager without auxiliaries.
    pub fn new() -> (manager: AuxiliaryDataManager)
        ensures
            manager.wf(),
            manager.sources().keys().len() == 0,
            manager.channels().keys().len() == 0,
            manager.data().keys().len() == 0,
    {
        AuxiliaryDataManager {
            animation_auxiliary_sources: Table::new(),
            auxiliary_data_buffers: Table::new(),
            auxiliary_data: Table::new(),
        }
    }

    /// Adds the auxiliary `aux_id` of shape `aux_type`, starting with the
    /// default value of the shape, or with the initial value of `params`
    /// for a scalar. Fails, changing nothing, where the auxiliary exists.
    pub fn add_auxiliary(
        &mut self,
        aux_id: AuxiliaryId,
        aux_type: AuxiliaryDataTypeConsumer,
        params: AuxiliaryConfigParams,
    ) -> (result: Result<(), AddAuxiliaryError>)
        requires
            old(self).wf(),
        ensures
            final(self).wf(),
            final(self).sources() == old(self).sources(),
            final(self).channels() == old(self).channels(),
            old(self).data().contains(aux_id@) ==> (result matches Err(
                AddAuxiliaryError::AuxiliaryExists(e),
            ) && e@ == aux_id@) && final(self).data() == old(self).data(),
            !old(self).data().contains(aux_id@) ==> result is Ok && old(self).data().stored(
                &final(self).data(),
                aux_id@,
            ) && {
                let added = final(self).data().value_of(aux_id@)@;
                added.data == spec_initial_value(aux_type, params) && added.data.wf() && added.size
                    == added.data.values.len()
            },
    {
        if self.auxiliary_data.contains_key(aux_id.key()) {
            return Err(AddAuxiliaryError::AuxiliaryExists(aux_id));
        }
        let default_value = aux_type.default_aux_value();
        let value = match params {
            AuxiliaryConfigParams::F32 { initial_value, min_value, max_value } => {
                match default_value {
                    AuxiliaryDataType::F32(_) => {
                        let value = AuxiliaryDataType::F32(initial_value);
                        assert(value@ =~= spec_initial_value(aux_type, params));
                        value
                    },
                    other => other,
                }
            },
            _ => default_value,
        };
        self.auxiliary_data.insert(aux_id.unprotect(), AuxiliaryData::of(value));
        Ok(())
    }

    /// The auxiliaries that exist, in the order they were added.
    pub fn get_available_auxiliaries(&self) -> (ids: Vec<AuxiliaryId>)
        requires
            self.wf(),
        ensures
            auxiliary_keys(ids@) == self.data().keys(),
    {
        let keys = crate::pipeline::reconcile::all_keys(&self.auxiliary_data);
        crate::pipeline::reconcile::auxiliary_ids(&keys)
    }

    /// A copy of the current value of each auxiliary.
    pub fn get_auxiliary_data(&self) -> (copy: Table<AuxiliaryData>)
        requires
            self.wf(),
        ensures
            copy.wf(),
            copy.keys() == self.data().keys(),
            forall|i: int|
                0 <= i < copy.keys().len() ==> (#[trigger] copy.values()[i])@
                    == self.data().values()[i]@,
    {
        copy_auxiliaries(&self.auxiliary_data)
    }

    /// A copy of the auxiliaries of each animation.
    pub fn get_animation_auxiliary_ids(&self) -> (copy: Table<Vec<AuxiliaryId>>)
        requires
            self.wf(),
        ensures
            copy.wf(),
            copy.keys() == self.sources().keys(),
            forall|i: int|
                0 <= i < copy.keys().len() ==> auxiliary_keys((#[trigger] copy.values()[i])@)
                    == auxiliary_keys(self.sources().values()[i]@),
    {
        copy_mappings(&self.animation_auxiliary_sources)
    }

    /// Makes `sources` the auxiliaries of `animation_id`, in place of any it
    /// had: `sources[i]` feeds slot `i` of the animation's shader.
    pub fn set_animation_auxiliary_sources_to(
        &mut self,
        animation_id: AnimationId,
        sources: Vec<AuxiliaryId>,
    )
        requires
            old(self).wf(),
        ensures
            final(self).wf(),
            final(self).data() == old(self).data(),
            final(self).channels() == old(self).channels(),
            old(self).sources().stored(&final(self).sources(), animation_id@),
            final(self).sources().value_of(animation_id@) == sources,
    {
        self.animation_auxiliary_sources.insert(animation_id.unprotect(), sources);
    }

    /// Takes up reading the data channel of the device `device_id`.
    pub fn read_aux_data_from(&mut self, device_id: DeviceId)
        requires
            old(self).wf(),
        ensures
            final(self).wf(),
            final(self).data() == old(self).data(),
            final(self).sources() == old(self).sources(),
            old(self).channels().stored(&final(self).channels(), device_id@),
    {
        self.auxiliary_data_buffers.insert(device_id.unprotect(), true);
    }

    /// The devices whose data channel the manager reads, in the order they
    /// were taken up.
    pub fn channel_devices(&self) -> (names: Vec<String>)
        requires
            self.wf(),
        ensures
            crate::table::text_views(names@) == self.channels().keys(),
    {
        crate::pipeline::reconcile::all_keys(&self.auxiliary_data_buffers)
    }

    /// A device was added: the manager takes up the data channel of an
    /// auxiliary data device and has nothing to do with any other. Says
    /// whether it took up a channel.
    pub fn on_device_added(&mut self, device_id: DeviceId, kind: DeviceKind) -> (taken: bool)
        requires
            old(self).wf(),
        ensures
            final(self).wf(),
            final(self).data() == old(self).data(),
            final(self).sources() == old(self).sources(),
            taken == (kind == DeviceKind::AuxiliaryData),
            taken ==> old(self).channels().stored(&final(self).channels(), device_id@),
            !taken ==> final(self).channels() == old(self).channels(),
    {
        match kind {
            DeviceKind::LEDDataOutput => false,
            DeviceKind::AuxiliaryData => {
                self.read_aux_data_from(device_id);
                true
            },
        }
    }

    /// A device was removed: its data channel is dropped.
    pub fn on_device_removed(&mut self, device_id: &DeviceId)
        requires
            old(self).wf(),
        ensures
            final(self).wf(),
            final(self).data() == old(self).data(),
            final(self).sources() == old(self).sources(),
            old(self).channels().dropped(&final(self).channels(), device_id@),
    {
        let _gone = self.auxiliary_data_buffers.remove(device_id.key());
    }

    /// Takes what came out of the data channel of `device_id`. A value for
    /// an auxiliary that exists becomes its current value, with the number
    /// of its scalars as its size; a value for any other is dropped. A
    /// closed channel loses its slot. Lag changes nothing.
    pub fn receive(&mut self, device_id: &DeviceId, received: AuxiliaryReceive) -> (outcome:
        AuxiliaryOutcome)
        requires
            old(self).wf(),
        ensures
            final(self).wf(),
            final(self).sources() == old(self).sources(),
            match received {
                AuxiliaryReceive::Data(message) => {
                    &&& final(self).channels() == old(self).channels()
                    &&& old(self).data().contains(message.aux_id@) ==> outcome
                        == AuxiliaryOutcome::Updated && final(self).data().keys() == old(self).data().keys() && final(self).data().value_of(message.aux_id@)@.data
                        == message.data@ && final(self).data().value_of(message.aux_id@)@.size
                        == message.data@.values.len() && old(self).data().stored(
                        &final(self).data(),
                        message.aux_id@,
                    )
                    &&& !old(self).data().contains(message.aux_id@) ==> outcome
                        == AuxiliaryOutcome::UnknownAuxiliary && final(self).data() == old(self).data()
                },
                AuxiliaryReceive::Empty => outcome == AuxiliaryOutcome::Nothing && final(self).data() == old(self).data() && final(self).channels() == old(self).channels(),
                AuxiliaryReceive::Closed => outcome == AuxiliaryOutcome::ChannelDropped && final(self).data() == old(self).data() && old(self).channels().dropped(
                    &final(self).channels(),
                    device_id@,
                ),
                AuxiliaryReceive::Lagged(n) => outcome == AuxiliaryOutcome::Lagged(n) && final(self).data() == old(self).data() && final(self).channels() == old(self).channels(),
            },
    {
        match received {
            AuxiliaryReceive::Data(message) => {
                if !self.auxiliary_data.contains_key(message.aux_id.key()) {
                    return AuxiliaryOutcome::UnknownAuxiliary;
                }
                let key = message.aux_id.unprotect();
                self.auxiliary_data.insert(key, AuxiliaryData::of(message.data));
                AuxiliaryOutcome::Updated
            },
            AuxiliaryReceive::Empty => AuxiliaryOutcome::Nothing,
            AuxiliaryReceive::Closed => {
                let _gone = self.auxiliary_data_buffers.remove(device_id.key());
                AuxiliaryOutcome::ChannelDropped
            },
            AuxiliaryReceive::Lagged(n) => AuxiliaryOutcome::Lagged(n),
        }
    }
}

} // verus!
