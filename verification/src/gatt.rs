//! The attributes of a device: services, their characteristics, and the
//! descriptors of each characteristic, in the order of their discovery.

use vstd::prelude::*;

verus! {

/// A 128-bit identifier of an attribute, as its sixteen bytes.
#[derive(Clone, Copy, Debug, PartialEq, Eq, Hash)]
pub struct Uuid {
    pub bytes: [u8; 16],
}

/// A descriptor of a characteristic.
#[derive(Clone, Copy, Debug, PartialEq, Eq, Hash)]
pub struct Descriptor {
    pub uuid: Uuid,
}

/// A characteristic of a service.
#[derive(Clone, Debug, PartialEq, Eq, Hash)]
pub struct Characteristic {
    pub uuid: Uuid,
    /// The service that the characteristic belongs to.
    pub service_uuid: Uuid,
    /// The permitted operations, one bit each.
    pub properties: u8,
    pub descriptors: Vec<Descriptor>,
}

/// A service of a device.
#[derive(Clone, Debug, PartialEq, Eq, Hash)]
pub struct Service {
    pub uuid: Uuid,
    pub characteristics: Vec<Characteristic>,
}

/// A characteristic as a mathematical value.
pub struct CharacteristicView {
    pub uuid: Uuid,
    pub service_uuid: Uuid,
    pub properties: u8,
    pub descriptors: Seq<Descriptor>,
}

/// A service as a mathematical value.
pub struct ServiceView {
    pub uuid: Uuid,
    pub characteristics: Seq<CharacteristicView>,
}

impl View for Uuid {
    type V = Seq<u8>;

    open spec fn view(&self) -> Seq<u8> {
        self.bytes@
    }
}

impl View for Characteristic {
    type V = CharacteristicView;

    open spec fn view(&self) -> CharacteristicView {
        CharacteristicView {
            uuid: self.uuid,
            service_uuid: self.service_uuid,
            properties: self.properties,
            descriptors: self.descriptors@,
        }
    }
}

/// The characteristics `characteristics` as mathematical values, in the same
/// order.
pub open spec fn characteristic_views(characteristics: Seq<Characteristic>) -> Seq<
    CharacteristicView,
> {
    characteristics.map_values(|c: Characteristic| c@)
}

impl View for Service {
    type V = ServiceView;

    open spec fn view(&self) -> ServiceView {
        ServiceView {
            uuid: self.uuid,
            characteristics: characteristic_views(self.characteristics@),
        }
    }
}

/// The services `services` as mathematical values, in the same order.
pub open spec fn service_views(services: Seq<Service>) -> Seq<ServiceView> {
    services.map_values(|s: Service| s@)
}

} // verus!
