//! A device that feeds an auxiliary with noise: a cube of ten by ten by ten
//! random scalars, renewed once per second of frame time.

use crate::auxiliary_data::{AuxDataError, AuxDataF32Vec3, AuxValue, AuxiliaryDataType, AuxiliaryDataTypeConsumer};
use crate::devices::auxiliary_data::AuxDeviceData;
use crate::frame::FrameData;
use crate::id::{AuxiliaryId, DeviceId};
use vstd::prelude::*;

verus! {

/// What a noise device is made from.
#[derive(Debug)]
pub struct NoiseAuxiliaryConfig {
    /// The auxiliary that the noise is for.
    pub aux_id: String,
}

impl Clone for NoiseAuxiliaryConfig {
    fn clone(&self) -> (copy: Self)
        ensures
            copy.aux_id@ == self.aux_id@,
    {
        NoiseAuxiliaryConfig { aux_id: self.aux_id.clone() }
    }
}

/// The size of each side of the cube of noise.
pub open spec fn noise_side() -> u32 {
    10
}

/// The number of scalars in the cube of noise.
pub open spec fn noise_len() -> nat {
    1000
}

/// The value that holds the cube of noise `scalars`.
pub open spec fn noise_value(scalars: Seq<u32>) -> AuxValue {
    AuxValue {
        kind: AuxiliaryDataTypeConsumer::F32Vec3,
        dims: seq![noise_side(), noise_side(), noise_side()],
        values: scalars,
    }
}

/// A noise device: whom the noise is for, and the noise of the second of
/// frame time that it last made noise for.
#[derive(Debug)]
pub struct NoiseAuxiliaryDataDevice {
    id: DeviceId,
    aux_id: Option<AuxiliaryId>,
    prev_time_point: Option<u32>,
    prev_values: Option<AuxiliaryDataType>,
}

impl NoiseAuxiliaryDataDevice {
    /// The text of the device's identifier.
    pub closed spec fn spec_id(&self) -> Seq<char> {
        self.id@
    }

    /// The auxiliary that the noise is for, if any.
    pub closed spec fn target(&self) -> Option<Seq<char>> {
        match self.aux_id {
            Some(id) => Some(id@),
            None => None,
        }
    }

    /// The second of frame time that the device last made noise for.
    pub closed spec fn last_time_point(&self) -> Option<u32> {
        self.prev_time_point
    }

    /// The noise last made.
    pub closed spec fn last_values(&self) -> Option<AuxValue> {
        match self.prev_values {
            Some(values) => Some(values@),
            None => None,
        }
    }

    /// Whether the noise last made is still the noise of `frame_data`: it
    /// was made for the same whole second of frame time.
    pub open spec fn is_current(&self, frame_data: FrameData) -> bool {
        self.last_time_point() == Some(frame_data.whole_seconds_elapsed) && self.last_values()
            is Some
    }

    /// A device that makes noise for `aux_id` and has made none yet.
    pub fn new(id: DeviceId, aux_id: AuxiliaryId) -> (device: Self)
        ensures
            device.spec_id() == id@,
            device.target() == Some(aux_id@),
            device.last_time_point() is None,
            device.last_values() is None,
    {
        NoiseAuxiliaryDataDevice {
            id,
            aux_id: Some(aux_id),
            prev_time_point: None,
            prev_values: None,
        }
    }

    /// The device's identifier.
    pub fn id(&self) -> (id: &DeviceId)
        ensures
            id@ == self.spec_id(),
    {
        &self.id
    }

    /// Makes the device feed `aux_id` from now on.
    pub fn send_data_to_aux(&mut self, aux_id: AuxiliaryId)
        ensures
            final(self).spec_id() == old(self).spec_id(),
            final(self).target() == Some(aux_id@),
            final(self).last_time_point() == old(self).last_time_point(),
            final(self).last_values() == old(self).last_values(),
    {
        self.aux_id = Some(aux_id);
    }

    /// Whether the noise of `frame_data` has yet to be made.
    pub fn needs_fresh_noise(&self, frame_data: &FrameData) -> (needed: bool)
        ensures
            needed == !self.is_current(*frame_data),
    {
        match self.prev_time_point {
            Some(prev_time_point) => !(prev_time_point == frame_data.whole_seconds_elapsed
                && self.prev_values.is_some()),
            None => true,
        }
    }

    /// The noise of `frame_data`: the noise last made where it was made for
    /// the same whole second of frame time, and otherwise the cube of the
    /// `fresh` scalars, which is then kept. Where new noise is due and
    /// `fresh` is not a thousand scalars, there is no noise and nothing is
    /// kept.
    pub fn get_noise_for_frame(&mut self, frame_data: FrameData, fresh: Vec<u32>) -> (noise: Option<
        AuxiliaryDataType,
    >)
        ensures
            final(self).spec_id() == old(self).spec_id(),
            final(self).target() == old(self).target(),
            old(self).is_current(frame_data) ==> noise is Some && Some(noise->0@) == old(self).last_values() && final(self).last_values() == old(self).last_values() && final(self).last_time_point() == old(self).last_time_point(),
            !old(self).is_current(frame_data) && fresh@.len() == noise_len() ==> noise is Some
                && noise->0@ == noise_value(fresh@) && final(self).last_values() == Some(
                noise_value(fresh@),
            ) && final(self).last_time_point() == Some(frame_data.whole_seconds_elapsed),
            !old(self).is_current(frame_data) && fresh@.len() != noise_len() ==> noise is None
                && final(self).last_values() == old(self).last_values() && final(self).last_time_point() == old(self).last_time_point(),
    {
        if !self.needs_fresh_noise(&frame_data) {
            return match &self.prev_values {
                Some(values) => Some(values.clone()),
                None => None,
            };
        }
        let ghost scalars = fresh@;
        let made: Result<AuxDataF32Vec3, AuxDataError> = AuxDataF32Vec3::try_from(
            (fresh, 10, 10, 10),
        );
        match made {
            Ok(cube) => {
                let data = AuxiliaryDataType::F32Vec3(cube);
                assert(data@ =~= noise_value(scalars));
                self.prev_time_point = Some(frame_data.whole_seconds_elapsed);
                self.prev_values = Some(data.clone());
                Some(data)
            },
            Err(_) => None,
        }
    }

    /// What the device sends for the coming frame `next_frame_data`: the
    /// noise of that frame, for the auxiliary it feeds. Nothing where it
    /// feeds none or has no noise.
    pub fn tick(&mut self, next_frame_data: FrameData, fresh: Vec<u32>) -> (message: Option<
        AuxDeviceData,
    >)
        ensures
            final(self).spec_id() == old(self).spec_id(),
            final(self).target() == old(self).target(),
            message is Some ==> Some(message->0.aux_id@) == old(self).target() && Some(
                message->0.data@,
            ) == final(self).last_values(),
            message is Some <==> old(self).target() is Some && (old(self).is_current(
                next_frame_data,
            ) || fresh@.len() == noise_len()),
    {
        let noise = self.get_noise_for_frame(next_frame_data, fresh);
        match (noise, &self.aux_id) {
            (Some(data), Some(aux_id)) => Some(AuxDeviceData { aux_id: aux_id.clone(), data }),
            _ => None,
        }
    }
}

} // verus!
