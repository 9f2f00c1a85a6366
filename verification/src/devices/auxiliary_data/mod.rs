//! Devices that auxiliary data comes from.

pub mod noise;

use crate::auxiliary_data::AuxiliaryDataType;
use crate::id::AuxiliaryId;
use vstd::prelude::*;

verus! {

/// A new value for an auxiliary, from a device.
#[derive(Debug)]
pub struct AuxDeviceData {
    pub aux_id: AuxiliaryId,
    pub data: AuxiliaryDataType,
}

impl Clone for AuxDeviceData {
    fn clone(&self) -> (copy: Self)
        ensures
            copy.aux_id@ == self.aux_id@,
            copy.data@ == self.data@,
    {
        AuxDeviceData { aux_id: self.aux_id.clone(), data: self.data.clone() }
    }
}

} // verus!
