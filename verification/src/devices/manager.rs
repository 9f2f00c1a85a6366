//! The device registry: which devices exist, and of which kind.

use crate::auxiliary_data::{AuxiliaryDataType, AuxiliaryDataTypeConsumer};
use crate::devices::auxiliary_data::noise::NoiseAuxiliaryConfig;
use crate::devices::led_output::mqtt::MQTTSenderConfig;
use crate::devices::led_output::udp::UDPSenderConfig;
use crate::id::DeviceId;
use crate::table::Table;
use vstd::prelude::*;

verus! {

/// What a device is made from.
#[derive(Debug)]
pub enum DeviceConfigType {
    LEDDataOutput(LEDOutputConfigType),
    Auxiliary(AuxiliaryDataConfigType),
}

/// What an LED output device is made from.
#[allow(clippy::upper_case_acronyms)]
#[derive(Debug)]
pub enum LEDOutputConfigType {
    MQTT(MQTTSenderConfig),
    UDP(UDPSenderConfig),
}

/// What an auxiliary data device is made from.
#[derive(Debug)]
pub enum AuxiliaryDataConfigType {
    Noise(NoiseAuxiliaryConfig),
}

/// What a device gives out.
#[derive(Debug, Clone, Copy, PartialEq, Eq, Structural)]
pub enum DeviceOutputType {
    Auxiliary(AuxiliaryDataTypeConsumer),
}

/// What a device takes in.
#[derive(Debug, Clone, Copy, PartialEq, Eq, Structural)]
pub enum DeviceInputType {
    LEDData,
}

/// Something that a device gave out.
#[derive(Debug)]
pub enum DeviceOutput {
    Auxiliary(AuxiliaryDataType),
}

/// A device could not be added.
#[derive(Debug)]
pub enum DeviceManagerErrorAddDevice {
    DeviceAlreadyExists(DeviceId),
}

/// A device could not be found.
#[derive(Debug)]
pub enum DeviceManagerErrorGetDevice {
    DeviceDoesNotExist(DeviceId),
}

/// A change of the registry, for whoever listens.
#[derive(Debug)]
pub enum DeviceManagerEvent {
    DeviceAdded(DeviceId),
    DeviceRemoved(DeviceId),
}

impl Clone for DeviceManagerEvent {
    fn clone(&self) -> (copy: Self)
        ensures
            copy == *self,
    {
        match self {
            DeviceManagerEvent::DeviceAdded(id) => DeviceManagerEvent::DeviceAdded(id.clone()),
            DeviceManagerEvent::DeviceRemoved(id) => DeviceManagerEvent::DeviceRemoved(id.clone()),
        }
    }
}

/// The kind of a device: it takes LEDs in, or it gives auxiliary data out.
#[derive(Debug, Clone, Copy, PartialEq, Eq, Structural)]
pub enum DeviceKind {
    LEDDataOutput,
    AuxiliaryData,
}

impl DeviceConfigType {
    /// The kind of device that the configuration makes.
    pub open spec fn spec_kind(&self) -> DeviceKind {
        match self {
            DeviceConfigType::LEDDataOutput(_) => DeviceKind::LEDDataOutput,
            DeviceConfigType::Auxiliary(_) => DeviceKind::AuxiliaryData,
        }
    }

    /// The kind of device that the configuration makes.
    pub fn kind(&self) -> (kind: DeviceKind)
        ensures
            kind == self.spec_kind(),
    {
        match self {
            DeviceConfigType::LEDDataOutput(_) => DeviceKind::LEDDataOutput,
            DeviceConfigType::Auxiliary(_) => DeviceKind::AuxiliaryData,
        }
    }
}

/// The device registry.
#[derive(Debug)]
pub struct DeviceManager {
    devices: Table<DeviceKind>,
}

impl DeviceManager {
    /// The kind of each device, by identifier.
    pub closed spec fn devices(&self) -> Table<DeviceKind> {
        self.devices
    }

    /// The table is well formed.
    pub open spec fn wf(&self) -> bool {
        self.devices().wf()
    }

    /// A registry without devices.
    pub fn new() -> (manager: DeviceManager)
        ensures
            manager.wf(),
            manager.devices().keys().len() == 0,
    {
        DeviceManager { devices: Table::new() }
    }

    /// Adds the device `id`, of the kind that `config` makes.
    pub fn add_device_from_config(&mut self, id: DeviceId, config: &DeviceConfigType) -> (result:
        Result<DeviceManagerEvent, DeviceManagerErrorAddDevice>)
        requires
            old(self).wf(),
        ensures
            final(self).wf(),
            old(self).devices().contains(id@) ==> (result matches Err(
                DeviceManagerErrorAddDevice::DeviceAlreadyExists(e),
            ) && e@ == id@) && final(self).devices() == old(self).devices(),
            !old(self).devices().contains(id@) ==> (result matches Ok(
                DeviceManagerEvent::DeviceAdded(e),
            ) && e@ == id@) && old(self).devices().stored(&final(self).devices(), id@) && final(self).devices().value_of(id@) == config.spec_kind(),
    {
        self.add_device(id, config.kind())
    }

    /// The kind of the device `id`, if there is one.
    pub fn get_device(&self, id: &DeviceId) -> (kind: Option<DeviceKind>)
        requires
            self.wf(),
        ensures
            kind is Some <==> self.devices().contains(id@),
            kind is Some ==> kind->0 == self.devices().value_of(id@),
    {
        match self.devices.get(id.key()) {
            Some(kind) => Some(*kind),
            None => None,
        }
    }

    /// Adds the device `id` of the given kind and says so; fails, changing
    /// nothing, where a device has that identifier already.
    pub fn add_device(&mut self, id: DeviceId, device: DeviceKind) -> (result: Result<
        DeviceManagerEvent,
        DeviceManagerErrorAddDevice,
    >)
        requires
            old(self).wf(),
        ensures
            final(self).wf(),
            old(self).devices().contains(id@) ==> (result matches Err(
                DeviceManagerErrorAddDevice::DeviceAlreadyExists(e),
            ) && e@ == id@) && final(self).devices() == old(self).devices(),
            !old(self).devices().contains(id@) ==> (result matches Ok(
                DeviceManagerEvent::DeviceAdded(e),
            ) && e@ == id@) && old(self).devices().stored(&final(self).devices(), id@) && final(self).devices().value_of(id@) == device,
    {
        if self.devices.contains_key(id.key()) {
            return Err(DeviceManagerErrorAddDevice::DeviceAlreadyExists(id));
        }
        self.devices.insert(id.unprotect(), device);
        Ok(DeviceManagerEvent::DeviceAdded(id))
    }

    /// Removes the device `id` and says so; fails, changing nothing, where
    /// there is no such device.
    pub fn remove_device(&mut self, id: DeviceId) -> (result: Result<
        DeviceManagerEvent,
        DeviceManagerErrorGetDevice,
    >)
        requires
            old(self).wf(),
        ensures
            final(self).wf(),
            !old(self).devices().contains(id@) ==> (result matches Err(
                DeviceManagerErrorGetDevice::DeviceDoesNotExist(e),
            ) && e@ == id@) && final(self).devices() == old(self).devices(),
            old(self).devices().contains(id@) ==> (result matches Ok(
                DeviceManagerEvent::DeviceRemoved(e),
            ) && e@ == id@) && old(self).devices().dropped(&final(self).devices(), id@),
    {
        if !self.devices.contains_key(id.key()) {
            return Err(DeviceManagerErrorGetDevice::DeviceDoesNotExist(id));
        }
        let _gone = self.devices.remove(id.key());
        Ok(DeviceManagerEvent::DeviceRemoved(id))
    }
}

} // verus!
