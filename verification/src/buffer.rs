//! The buffer that hands the attributes of a device to the host.
//!
//! The buffer is a run of records without gaps between them:
//!
//! ```text
//! offset 0   total size of the buffer in bytes, this header included    4 bytes
//! offset 4   capacity of the allocation in bytes                        4 bytes
//! offset 8   ServiceDescriptors: the number of services                 4 bytes
//! then, for each service:
//!            ServiceDescriptor: uuid (16), number of characteristics (4)
//!            then, for each of its characteristics:
//!                CharacteristicDescriptor: uuid (16), properties (1),
//!                    padding (3), number of descriptors (4)
//!                then, for each of its descriptors:
//!                    CharacteristicDescriptorDescriptor: uuid (16)
//! ```
//!
//! Integers are little-endian, counts are signed and in two's complement, and
//! the padding bytes are zero, on every target. This is the layout that the
//! records have in memory as C structs on a little-endian target, and on
//! such targets only: a host on a big-endian target must swap the bytes of
//! each integer. A count or a size that does not fit its field is cut to its
//! low 32 bits: such a buffer does not say what it was made from. The host
//! reads the buffer by these offsets; `decode_buffer` states what it then
//! finds.

use crate::gatt::{
    service_views, Characteristic, CharacteristicView, Descriptor, Service, ServiceView, Uuid,
};
use crate::handle::CPeripheral;
use crate::status::{INVALID_ARGUMENT, SUCCESS};
use vstd::arithmetic::div_mod::{lemma_fundamental_div_mod, lemma_fundamental_div_mod_converse};
use vstd::prelude::*;

verus! {

/// The size of the header: the two words before the first record.
pub const HEADER_SIZE: usize = 8;

/// The four little-endian bytes of `v`, which is at most 32 bits wide.
pub open spec fn u32_le(v: int) -> Seq<u8> {
    seq![
        (v % 0x100) as u8,
        ((v / 0x100) % 0x100) as u8,
        ((v / 0x1_0000) % 0x100) as u8,
        ((v / 0x100_0000) % 0x100) as u8,
    ]
}

/// The unsigned integer that four little-endian bytes stand for.
pub open spec fn u32_from_le(bytes: Seq<u8>) -> int
    recommends
        bytes.len() == 4,
{
    bytes[0] + bytes[1] * 0x100 + bytes[2] * 0x1_0000 + bytes[3] * 0x100_0000
}

/// The four little-endian bytes of `v` in two's complement.
pub open spec fn i32_le(v: i32) -> Seq<u8> {
    u32_le(
        if v >= 0 {
            v as int
        } else {
            v + 0x1_0000_0000
        },
    )
}

/// The signed integer that four little-endian bytes stand for.
pub open spec fn i32_from_le(bytes: Seq<u8>) -> int
    recommends
        bytes.len() == 4,
{
    let v = u32_from_le(bytes);
    if v >= 0x8000_0000 {
        v - 0x1_0000_0000
    } else {
        v
    }
}

/// What a buffer says of one characteristic.
pub struct CharacteristicEntry {
    pub uuid: Seq<u8>,
    pub properties: u8,
    /// The identifiers of the descriptors.
    pub descriptors: Seq<Seq<u8>>,
}

/// What a buffer says of one service.
pub struct ServiceEntry {
    pub uuid: Seq<u8>,
    pub characteristics: Seq<CharacteristicEntry>,
}

/// What a buffer says of descriptors: their identifiers.
pub open spec fn descriptor_entries(descriptors: Seq<Descriptor>) -> Seq<Seq<u8>> {
    descriptors.map_values(|d: Descriptor| d.uuid@)
}

/// What a buffer says of a characteristic.
pub open spec fn characteristic_entry(c: CharacteristicView) -> CharacteristicEntry {
    CharacteristicEntry {
        uuid: c.uuid@,
        properties: c.properties,
        descriptors: descriptor_entries(c.descriptors),
    }
}

/// What a buffer says of characteristics.
pub open spec fn characteristic_entries(characteristics: Seq<CharacteristicView>) -> Seq<
    CharacteristicEntry,
> {
    characteristics.map_values(|c: CharacteristicView| characteristic_entry(c))
}

/// What a buffer says of a service.
pub open spec fn service_entry(s: ServiceView) -> ServiceEntry {
    ServiceEntry { uuid: s.uuid@, characteristics: characteristic_entries(s.characteristics) }
}

/// What a buffer says of services.
pub open spec fn service_entries(services: Seq<ServiceView>) -> Seq<ServiceEntry> {
    services.map_values(|s: ServiceView| service_entry(s))
}

/// The records of descriptors, one after the other.
pub open spec fn descriptors_bytes(descriptors: Seq<Seq<u8>>) -> Seq<u8>
    decreases descriptors.len(),
{
    if descriptors.len() == 0 {
        Seq::empty()
    } else {
        descriptors[0] + descriptors_bytes(descriptors.drop_first())
    }
}

/// The record of a characteristic, followed by those of its descriptors.
pub open spec fn characteristic_bytes(c: CharacteristicEntry) -> Seq<u8> {
    c.uuid + seq![c.properties, 0u8, 0u8, 0u8] + i32_le(c.descriptors.len() as i32)
        + descriptors_bytes(c.descriptors)
}

/// What characteristics take in a buffer, one after the other.
pub open spec fn characteristics_bytes(characteristics: Seq<CharacteristicEntry>) -> Seq<u8>
    decreases characteristics.len(),
{
    if characteristics.len() == 0 {
        Seq::empty()
    } else {
        characteristic_bytes(characteristics[0]) + characteristics_bytes(
            characteristics.drop_first(),
        )
    }
}

/// The record of a service, followed by what its characteristics take.
pub open spec fn service_bytes(s: ServiceEntry) -> Seq<u8> {
    s.uuid + i32_le(s.characteristics.len() as i32) + characteristics_bytes(s.characteristics)
}

/// What services take in a buffer, one after the other.
pub open spec fn services_bytes(services: Seq<ServiceEntry>) -> Seq<u8>
    decreases services.len(),
{
    if services.len() == 0 {
        Seq::empty()
    } else {
        service_bytes(services[0]) + services_bytes(services.drop_first())
    }
}

/// A buffer after its header: the number of services, then the services.
pub open spec fn body_bytes(services: Seq<ServiceEntry>) -> Seq<u8> {
    i32_le(services.len() as i32) + services_bytes(services)
}

/// The header of a buffer of `size` bytes in an allocation of `capacity`
/// bytes.
pub open spec fn header_bytes(size: int, capacity: int) -> Seq<u8> {
    u32_le(size as u32 as int) + u32_le(capacity as u32 as int)
}

/// The whole buffer for `services`, in an allocation of `capacity` bytes.
pub open spec fn buffer_bytes(services: Seq<ServiceEntry>, capacity: int) -> Seq<u8> {
    header_bytes(HEADER_SIZE + body_bytes(services).len(), capacity) + body_bytes(services)
}

/// Reads `count` records of descriptors off the front of `bytes`: the
/// identifiers, and the bytes that follow them.
pub open spec fn decode_descriptors(bytes: Seq<u8>, count: nat) -> Option<(Seq<Seq<u8>>, Seq<u8>)>
    decreases count,
{
    if count == 0 {
        Some((Seq::empty(), bytes))
    } else if bytes.len() < 16 {
        None
    } else {
        match decode_descriptors(bytes.skip(16), (count - 1) as nat) {
            Some((others, rest)) => Some((seq![bytes.take(16)] + others, rest)),
            None => None,
        }
    }
}

/// Reads one characteristic with its descriptors off the front of `bytes`.
pub open spec fn decode_characteristic(bytes: Seq<u8>) -> Option<(CharacteristicEntry, Seq<u8>)> {
    if bytes.len() < 24 {
        None
    } else {
        let count = i32_from_le(bytes.subrange(20, 24));
        if count < 0 {
            None
        } else {
            match decode_descriptors(bytes.skip(24), count as nat) {
                Some((descriptors, rest)) => Some(
                    (
                        CharacteristicEntry {
                            uuid: bytes.take(16),
                            properties: bytes[16],
                            descriptors,
                        },
                        rest,
                    ),
                ),
                None => None,
            }
        }
    }
}

/// Reads `count` characteristics off the front of `bytes`.
pub open spec fn decode_characteristics(bytes: Seq<u8>, count: nat) -> Option<
    (Seq<CharacteristicEntry>, Seq<u8>),
>
    decreases count,
{
    if count == 0 {
        Some((Seq::empty(), bytes))
    } else {
        match decode_characteristic(bytes) {
            Some((first, after)) => match decode_characteristics(after, (count - 1) as nat) {
                Some((others, rest)) => Some((seq![first] + others, rest)),
                None => None,
            },
            None => None,
        }
    }
}

/// Reads one service with its characteristics off the front of `bytes`.
pub open spec fn decode_service(bytes: Seq<u8>) -> Option<(ServiceEntry, Seq<u8>)> {
    if bytes.len() < 20 {
        None
    } else {
        let count = i32_from_le(bytes.subrange(16, 20));
        if count < 0 {
            None
        } else {
            match decode_characteristics(bytes.skip(20), count as nat) {
                Some((characteristics, rest)) => Some(
                    (ServiceEntry { uuid: bytes.take(16), characteristics }, rest),
                ),
                None => None,
            }
        }
    }
}

/// Reads `count` services off the front of `bytes`.
pub open spec fn decode_services(bytes: Seq<u8>, count: nat) -> Option<
    (Seq<ServiceEntry>, Seq<u8>),
>
    decreases count,
{
    if count == 0 {
        Some((Seq::empty(), bytes))
    } else {
        match decode_service(bytes) {
            Some((first, after)) => match decode_services(after, (count - 1) as nat) {
                Some((others, rest)) => Some((seq![first] + others, rest)),
                None => None,
            },
            None => None,
        }
    }
}

/// The total size that the header of a buffer gives.
pub open spec fn header_size(bytes: Seq<u8>) -> int
    recommends
        bytes.len() >= 8,
{
    u32_from_le(bytes.subrange(0, 4))
}

/// The capacity that the header of a buffer gives.
pub open spec fn header_capacity(bytes: Seq<u8>) -> int
    recommends
        bytes.len() >= 8,
{
    u32_from_le(bytes.subrange(4, 8))
}

/// What a host finds in a buffer that it reads by the offsets of the
/// records: the services, where the buffer is as long as its header says and
/// holds exactly the records that its counts announce.
pub open spec fn decode_buffer(bytes: Seq<u8>) -> Option<Seq<ServiceEntry>> {
    if bytes.len() < 12 || header_size(bytes) != bytes.len() {
        None
    } else {
        let count = i32_from_le(bytes.subrange(8, 12));
        if count < 0 {
            None
        } else {
            match decode_services(bytes.skip(12), count as nat) {
                Some((services, rest)) => if rest.len() == 0 {
                    Some(services)
                } else {
                    None
                },
                None => None,
            }
        }
    }
}

/// Whether a buffer can say all of `c`: its identifiers have sixteen bytes
/// and the number of its descriptors fits the count.
pub open spec fn characteristic_fits(c: CharacteristicEntry) -> bool {
    &&& c.uuid.len() == 16
    &&& c.descriptors.len() <= i32::MAX
    &&& forall|i: int| 0 <= i < c.descriptors.len() ==> (#[trigger] c.descriptors[i]).len() == 16
}

/// Whether a buffer can say all of `s`.
pub open spec fn service_fits(s: ServiceEntry) -> bool {
    &&& s.uuid.len() == 16
    &&& s.characteristics.len() <= i32::MAX
    &&& forall|i: int|
        0 <= i < s.characteristics.len() ==> characteristic_fits(#[trigger] s.characteristics[i])
}

/// Whether a buffer can say all of `services`: every identifier has sixteen
/// bytes, every count fits its field, and so does the size of the buffer.
pub open spec fn services_fit(services: Seq<ServiceEntry>) -> bool {
    &&& services.len() <= i32::MAX
    &&& forall|i: int| 0 <= i < services.len() ==> service_fits(#[trigger] services[i])
    &&& HEADER_SIZE + body_bytes(services).len() <= u32::MAX
}

/// Four little-endian bytes say which unsigned integer they were made from.
pub proof fn lemma_u32_le_round_trip(v: int)
    requires
        0 <= v <= u32::MAX,
    ensures
        u32_le(v).len() == 4,
        u32_from_le(u32_le(v)) == v,
{
    let q1 = v / 0x100;
    let q2 = v / 0x1_0000;
    let q3 = v / 0x100_0000;
    lemma_fundamental_div_mod(v, 0x100);
    lemma_fundamental_div_mod(q1, 0x100);
    lemma_fundamental_div_mod(q2, 0x100);
    lemma_fundamental_div_mod_converse(v, 0x1_0000, q1 / 0x100, (q1 % 0x100) * 0x100 + v % 0x100);
    lemma_fundamental_div_mod_converse(
        v,
        0x100_0000,
        q2 / 0x100,
        (q2 % 0x100) * 0x1_0000 + (q1 % 0x100) * 0x100 + v % 0x100,
    );
    assert(q3 < 0x100);
    assert(q3 % 0x100 == q3);
}

/// Four little-endian bytes say which signed integer they were made from.
pub proof fn lemma_i32_le_round_trip(v: i32)
    ensures
        i32_le(v).len() == 4,
        i32_from_le(i32_le(v)) == v,
{
    if v >= 0 {
        lemma_u32_le_round_trip(v as int);
    } else {
        lemma_u32_le_round_trip(v + 0x1_0000_0000);
    }
}

/// The records of descriptors take sixteen bytes each.
pub proof fn lemma_descriptors_bytes_len(descriptors: Seq<Seq<u8>>)
    requires
        forall|i: int| 0 <= i < descriptors.len() ==> (#[trigger] descriptors[i]).len() == 16,
    ensures
        descriptors_bytes(descriptors).len() == 16 * descriptors.len(),
    decreases descriptors.len(),
{
    if descriptors.len() > 0 {
        lemma_descriptors_bytes_len(descriptors.drop_first());
    }
}

/// One more descriptor adds its record at the end.
pub proof fn lemma_descriptors_bytes_push(descriptors: Seq<Seq<u8>>, last: Seq<u8>)
    ensures
        descriptors_bytes(descriptors.push(last)) == descriptors_bytes(descriptors) + last,
    decreases descriptors.len(),
{
    let longer = descriptors.push(last);
    if descriptors.len() == 0 {
        assert(longer.drop_first() =~= Seq::<Seq<u8>>::empty());
        assert(descriptors_bytes(longer) =~= last + descriptors_bytes(longer.drop_first()));
        assert(descriptors_bytes(longer) =~= descriptors_bytes(descriptors) + last);
    } else {
        lemma_descriptors_bytes_push(descriptors.drop_first(), last);
        assert(longer.drop_first() =~= descriptors.drop_first().push(last));
        assert(descriptors_bytes(longer) =~= descriptors_bytes(descriptors) + last);
    }
}

/// One more characteristic adds what it takes at the end.
pub proof fn lemma_characteristics_bytes_push(
    characteristics: Seq<CharacteristicEntry>,
    last: CharacteristicEntry,
)
    ensures
        characteristics_bytes(characteristics.push(last)) == characteristics_bytes(characteristics)
            + characteristic_bytes(last),
    decreases characteristics.len(),
{
    let longer = characteristics.push(last);
    if characteristics.len() == 0 {
        assert(longer.drop_first() =~= Seq::<CharacteristicEntry>::empty());
        assert(characteristics_bytes(longer) =~= characteristic_bytes(last) + characteristics_bytes(
            longer.drop_first(),
        ));
        assert(characteristics_bytes(longer) =~= characteristics_bytes(characteristics)
            + characteristic_bytes(last));
    } else {
        lemma_characteristics_bytes_push(characteristics.drop_first(), last);
        assert(longer.drop_first() =~= characteristics.drop_first().push(last));
        assert(characteristics_bytes(longer) =~= characteristics_bytes(characteristics)
            + characteristic_bytes(last));
    }
}

/// One more service adds what it takes at the end.
pub proof fn lemma_services_bytes_push(services: Seq<ServiceEntry>, last: ServiceEntry)
    ensures
        services_bytes(services.push(last)) == services_bytes(services) + service_bytes(last),
    decreases services.len(),
{
    let longer = services.push(last);
    if services.len() == 0 {
        assert(longer.drop_first() =~= Seq::<ServiceEntry>::empty());
        assert(services_bytes(longer) =~= service_bytes(last) + services_bytes(
            longer.drop_first(),
        ));
        assert(services_bytes(longer) =~= services_bytes(services) + service_bytes(last));
    } else {
        lemma_services_bytes_push(services.drop_first(), last);
        assert(longer.drop_first() =~= services.drop_first().push(last));
        assert(services_bytes(longer) =~= services_bytes(services) + service_bytes(last));
    }
}

/// Joining three runs of bytes gives the same run however they are grouped.
proof fn lemma_join(a: Seq<u8>, b: Seq<u8>, c: Seq<u8>)
    ensures
        (a + b) + c == a + (b + c),
{
    assert((a + b) + c =~= a + (b + c));
}

/// The front and the rest of two runs that were joined.
proof fn lemma_split(a: Seq<u8>, b: Seq<u8>)
    ensures
        (a + b).take(a.len() as int) == a,
        (a + b).skip(a.len() as int) == b,
{
    assert((a + b).take(a.len() as int) =~= a);
    assert((a + b).skip(a.len() as int) =~= b);
}

/// Reading the records of descriptors gives the descriptors back, and stops
/// where their records end.
pub proof fn lemma_decode_descriptors(descriptors: Seq<Seq<u8>>, tail: Seq<u8>)
    requires
        forall|i: int| 0 <= i < descriptors.len() ==> (#[trigger] descriptors[i]).len() == 16,
    ensures
        decode_descriptors(descriptors_bytes(descriptors) + tail, descriptors.len()) == Some(
            (descriptors, tail),
        ),
    decreases descriptors.len(),
{
    let bytes = descriptors_bytes(descriptors) + tail;
    if descriptors.len() == 0 {
        assert(bytes =~= tail);
        assert(descriptors =~= Seq::<Seq<u8>>::empty());
    } else {
        let first = descriptors[0];
        let others = descriptors.drop_first();
        let after = descriptors_bytes(others) + tail;
        assert(first.len() == 16);
        assert forall|i: int| 0 <= i < others.len() implies (#[trigger] others[i]).len() == 16 by {
            assert(others[i] == descriptors[i + 1]);
        }
        lemma_decode_descriptors(others, tail);
        lemma_join(first, descriptors_bytes(others), tail);
        lemma_split(first, after);
        assert(bytes == first + after);
        assert(decode_descriptors(after, others.len()) == Some((others, tail)));
        assert(seq![first] + others =~= descriptors);
    }
}

/// Reading what a characteristic takes gives the characteristic back, and
/// stops where its last descriptor ends.
pub proof fn lemma_decode_characteristic(c: CharacteristicEntry, tail: Seq<u8>)
    requires
        characteristic_fits(c),
    ensures
        decode_characteristic(characteristic_bytes(c) + tail) == Some((c, tail)),
{
    let count = c.descriptors.len() as i32;
    let record = c.uuid + seq![c.properties, 0u8, 0u8, 0u8] + i32_le(count);
    let after = descriptors_bytes(c.descriptors) + tail;
    let bytes = characteristic_bytes(c) + tail;
    lemma_i32_le_round_trip(count);
    lemma_decode_descriptors(c.descriptors, tail);
    lemma_join(record, descriptors_bytes(c.descriptors), tail);
    lemma_split(record, after);
    assert(record.len() == 24);
    assert(bytes == record + after);
    assert(bytes.subrange(20, 24) =~= i32_le(count));
    assert(bytes.take(16) =~= c.uuid);
    assert(bytes[16] == c.properties);
    assert(decode_descriptors(bytes.skip(24), c.descriptors.len()) == Some(
        (c.descriptors, tail),
    ));
}

/// Reading what characteristics take gives the characteristics back.
pub proof fn lemma_decode_characteristics(characteristics: Seq<CharacteristicEntry>, tail: Seq<u8>)
    requires
        forall|i: int|
            0 <= i < characteristics.len() ==> characteristic_fits(#[trigger] characteristics[i]),
    ensures
        decode_characteristics(
            characteristics_bytes(characteristics) + tail,
            characteristics.len(),
        ) == Some((characteristics, tail)),
    decreases characteristics.len(),
{
    let bytes = characteristics_bytes(characteristics) + tail;
    if characteristics.len() == 0 {
        assert(bytes =~= tail);
        assert(characteristics =~= Seq::<CharacteristicEntry>::empty());
    } else {
        let first = characteristics[0];
        let others = characteristics.drop_first();
        let after = characteristics_bytes(others) + tail;
        assert(characteristic_fits(first));
        assert forall|i: int| 0 <= i < others.len() implies characteristic_fits(
            #[trigger] others[i],
        ) by {
            assert(others[i] == characteristics[i + 1]);
        }
        lemma_decode_characteristics(others, tail);
        lemma_decode_characteristic(first, after);
        lemma_join(characteristic_bytes(first), characteristics_bytes(others), tail);
        assert(bytes == characteristic_bytes(first) + after);
        assert(decode_characteristic(bytes) == Some((first, after)));
        assert(decode_characteristics(after, others.len()) == Some((others, tail)));
        assert(seq![first] + others =~= characteristics);
    }
}

/// Reading what a service takes gives the service back, and stops where its
/// last characteristic ends.
pub proof fn lemma_decode_service(s: ServiceEntry, tail: Seq<u8>)
    requires
        service_fits(s),
    ensures
        decode_service(service_bytes(s) + tail) == Some((s, tail)),
{
    let count = s.characteristics.len() as i32;
    let record = s.uuid + i32_le(count);
    let after = characteristics_bytes(s.characteristics) + tail;
    let bytes = service_bytes(s) + tail;
    lemma_i32_le_round_trip(count);
    lemma_decode_characteristics(s.characteristics, tail);
    lemma_join(record, characteristics_bytes(s.characteristics), tail);
    lemma_split(record, after);
    assert(record.len() == 20);
    assert(bytes == record + after);
    assert(bytes.subrange(16, 20) =~= i32_le(count));
    assert(bytes.take(16) =~= s.uuid);
    assert(decode_characteristics(bytes.skip(20), s.characteristics.len()) == Some(
        (s.characteristics, tail),
    ));
}

/// Reading what services take gives the services back.
pub proof fn lemma_decode_services(services: Seq<ServiceEntry>, tail: Seq<u8>)
    requires
        forall|i: int| 0 <= i < services.len() ==> service_fits(#[trigger] services[i]),
    ensures
        decode_services(services_bytes(services) + tail, services.len()) == Some((services, tail)),
    decreases services.len(),
{
    let bytes = services_bytes(services) + tail;
    if services.len() == 0 {
        assert(bytes =~= tail);
        assert(services =~= Seq::<ServiceEntry>::empty());
    } else {
        let first = services[0];
        let others = services.drop_first();
        let after = services_bytes(others) + tail;
        assert(service_fits(first));
        assert forall|i: int| 0 <= i < others.len() implies service_fits(#[trigger] others[i]) by {
            assert(others[i] == services[i + 1]);
        }
        lemma_decode_services(others, tail);
        lemma_decode_service(first, after);
        lemma_join(service_bytes(first), services_bytes(others), tail);
        assert(bytes == service_bytes(first) + after);
        assert(decode_service(bytes) == Some((first, after)));
        assert(decode_services(after, others.len()) == Some((others, tail)));
        assert(seq![first] + others =~= services);
    }
}

/// The header of a buffer says how long the buffer is and how large its
/// allocation, as far as both fit 32 bits.
pub proof fn lemma_header_round_trip(services: Seq<ServiceEntry>, capacity: int)
    requires
        HEADER_SIZE + body_bytes(services).len() <= u32::MAX,
        0 <= capacity <= u32::MAX,
    ensures
        header_size(buffer_bytes(services, capacity)) == buffer_bytes(services, capacity).len(),
        header_capacity(buffer_bytes(services, capacity)) == capacity,
{
    let size = HEADER_SIZE + body_bytes(services).len();
    let body = body_bytes(services);
    let bytes = buffer_bytes(services, capacity);
    lemma_u32_le_round_trip(size as int);
    lemma_u32_le_round_trip(capacity);
    assert(bytes == u32_le(size as int) + u32_le(capacity) + body);
    assert(bytes.subrange(0, 4) =~= u32_le(size as int));
    assert(bytes.subrange(4, 8) =~= u32_le(capacity));
}

/// A host that reads a buffer by the offsets of its records finds the
/// services that the buffer was made from: as many, in the same order, each
/// with its identifier and its characteristics, and each of these with its
/// identifier, its properties and its descriptors. This holds of all
/// services that fit a buffer, whatever the capacity of the allocation.
pub proof fn lemma_decode_encode(services: Seq<ServiceEntry>, capacity: int)
    requires
        services_fit(services),
    ensures
        decode_buffer(buffer_bytes(services, capacity)) == Some(services),
{
    let count = services.len() as i32;
    let body = body_bytes(services);
    let size = HEADER_SIZE + body.len();
    let header = header_bytes(size as int, capacity);
    let bytes = buffer_bytes(services, capacity);
    let list = services_bytes(services);
    lemma_i32_le_round_trip(count);
    lemma_u32_le_round_trip(size as int);
    lemma_decode_services(services, Seq::empty());
    assert(header.len() == 8);
    lemma_split(header, body);
    lemma_split(i32_le(count), list);
    assert(bytes == header + body);
    assert(bytes.len() == size);
    assert(bytes.subrange(0, 4) =~= u32_le(size as int));
    assert(header_size(bytes) == bytes.len());
    assert(bytes.subrange(8, 12) =~= i32_le(count));
    assert(bytes.skip(12) =~= list + Seq::<u8>::empty());
    assert(decode_services(bytes.skip(12), services.len()) == Some(
        (services, Seq::<u8>::empty()),
    ));
}

/// A buffer whose header was blank and was then filled in is the buffer for
/// its services, and says what they are as long as they fit.
proof fn lemma_sealed(
    blank: Seq<u8>,
    sealed: Seq<u8>,
    services: Seq<ServiceEntry>,
    capacity: int,
)
    requires
        blank == Seq::new(HEADER_SIZE as nat, |i: int| 0u8) + body_bytes(services),
        sealed == header_bytes(blank.len() as int, capacity) + blank.skip(HEADER_SIZE as int),
    ensures
        sealed == buffer_bytes(services, capacity),
        services_fit(services) ==> decode_buffer(sealed) == Some(services),
{
    let zeros = Seq::new(HEADER_SIZE as nat, |i: int| 0u8);
    lemma_split(zeros, body_bytes(services));
    assert(blank.len() == HEADER_SIZE + body_bytes(services).len());
    if services_fit(services) {
        lemma_decode_encode(services, capacity);
    }
}

/// The record that opens the body of a buffer.
#[derive(Clone, Copy, Debug, PartialEq, Eq)]
pub struct ServiceDescriptors {
    pub service_count: i32,
}

/// The record of a service.
#[derive(Clone, Copy, Debug, PartialEq, Eq)]
pub struct ServiceDescriptor {
    pub uuid: Uuid,
    pub characteristic_count: i32,
}

/// The record of a characteristic.
#[derive(Clone, Copy, Debug, PartialEq, Eq)]
pub struct CharacteristicDescriptor {
    pub uuid: Uuid,
    pub properties: u8,
    pub descriptor_count: i32,
}

/// The record of a descriptor.
#[derive(Clone, Copy, Debug, PartialEq, Eq)]
pub struct CharacteristicDescriptorDescriptor {
    pub uuid: Uuid,
}

/// Appends the four little-endian bytes of `v`.
fn push_u32(buffer: &mut Vec<u8>, v: u32)
    ensures
        final(buffer)@ == old(buffer)@ + u32_le(v as int),
{
    buffer.push((v % 0x100) as u8);
    buffer.push(((v / 0x100) % 0x100) as u8);
    buffer.push(((v / 0x1_0000) % 0x100) as u8);
    buffer.push(((v / 0x100_0000) % 0x100) as u8);
    assert(buffer@ =~= old(buffer)@ + u32_le(v as int));
}

/// Appends the four little-endian bytes of `v` in two's complement.
fn push_i32(buffer: &mut Vec<u8>, v: i32)
    ensures
        final(buffer)@ == old(buffer)@ + i32_le(v),
{
    let unsigned: u32 = if v >= 0 {
        v as u32
    } else {
        (v as i64 + 0x1_0000_0000) as u32
    };
    push_u32(buffer, unsigned);
}

/// Appends the sixteen bytes of `uuid`.
fn push_uuid(buffer: &mut Vec<u8>, uuid: &Uuid)
    ensures
        final(buffer)@ == old(buffer)@ + uuid@,
{
    let mut i: usize = 0;
    while i < 16
        invariant
            i <= 16,
            buffer@ == old(buffer)@ + uuid@.take(i as int),
        decreases 16 - i,
    {
        buffer.push(uuid.bytes[i]);
        i = i + 1;
        assert(buffer@ =~= old(buffer)@ + uuid@.take(i as int));
    }
    assert(uuid@.take(16) =~= uuid@);
}

/// A number of records as the count of a record holds it: its low 32 bits,
/// read as a signed integer.
pub fn record_count(len: usize) -> (count: i32)
    ensures
        count == len as i32,
{
    #[verifier::truncate]
    (len as i32)
}

impl ServiceDescriptors {
    /// The four bytes of the record.
    pub open spec fn bytes(self) -> Seq<u8> {
        i32_le(self.service_count)
    }

    /// Appends the record to `buffer`.
    pub fn write(&self, buffer: &mut Vec<u8>)
        ensures
            final(buffer)@ == old(buffer)@ + self.bytes(),
    {
        push_i32(buffer, self.service_count);
    }
}

impl ServiceDescriptor {
    /// The twenty bytes of the record.
    pub open spec fn bytes(self) -> Seq<u8> {
        self.uuid@ + i32_le(self.characteristic_count)
    }

    /// Appends the record to `buffer`.
    pub fn write(&self, buffer: &mut Vec<u8>)
        ensures
            final(buffer)@ == old(buffer)@ + self.bytes(),
    {
        push_uuid(buffer, &self.uuid);
        push_i32(buffer, self.characteristic_count);
        assert(buffer@ =~= old(buffer)@ + self.bytes());
    }
}

impl CharacteristicDescriptor {
    /// The twenty-four bytes of the record.
    pub open spec fn bytes(self) -> Seq<u8> {
        self.uuid@ + seq![self.properties, 0u8, 0u8, 0u8] + i32_le(self.descriptor_count)
    }

    /// Appends the record to `buffer`.
    pub fn write(&self, buffer: &mut Vec<u8>)
        ensures
            final(buffer)@ == old(buffer)@ + self.bytes(),
    {
        push_uuid(buffer, &self.uuid);
        buffer.push(self.properties);
        buffer.push(0);
        buffer.push(0);
        buffer.push(0);
        push_i32(buffer, self.descriptor_count);
        assert(buffer@ =~= old(buffer)@ + self.bytes());
    }
}

impl CharacteristicDescriptorDescriptor {
    /// The sixteen bytes of the record.
    pub open spec fn bytes(self) -> Seq<u8> {
        self.uuid@
    }

    /// Appends the record to `buffer`.
    pub fn write(&self, buffer: &mut Vec<u8>)
        ensures
            final(buffer)@ == old(buffer)@ + self.bytes(),
    {
        push_uuid(buffer, &self.uuid);
    }
}

/// Appends the record of `characteristic` and those of its descriptors.
pub fn write_characteristic(buffer: &mut Vec<u8>, characteristic: &Characteristic)
    ensures
        final(buffer)@ == old(buffer)@ + characteristic_bytes(characteristic_entry(characteristic@)),
{
    let record = CharacteristicDescriptor {
        uuid: characteristic.uuid,
        properties: characteristic.properties,
        descriptor_count: record_count(characteristic.descriptors.len()),
    };
    record.write(buffer);
    let ghost entries = descriptor_entries(characteristic.descriptors@);
    let n: usize = characteristic.descriptors.len();
    let mut i: usize = 0;
    assert(entries.take(0) =~= Seq::<Seq<u8>>::empty());
    while i < n
        invariant
            n == characteristic.descriptors@.len(),
            entries == descriptor_entries(characteristic.descriptors@),
            i <= n,
            buffer@ == old(buffer)@ + record.bytes() + descriptors_bytes(entries.take(i as int)),
        decreases n - i,
    {
        let descriptor = CharacteristicDescriptorDescriptor { uuid: characteristic.descriptors[i].uuid };
        descriptor.write(buffer);
        proof {
            lemma_descriptors_bytes_push(entries.take(i as int), entries[i as int]);
            assert(entries.take(i + 1) =~= entries.take(i as int).push(entries[i as int]));
            assert(buffer@ =~= old(buffer)@ + record.bytes() + descriptors_bytes(
                entries.take(i + 1),
            ));
        }
        i = i + 1;
    }
    assert(entries.take(n as int) =~= entries);
    assert(buffer@ =~= old(buffer)@ + characteristic_bytes(characteristic_entry(characteristic@)));
}

/// Appends the record of `service` and what its characteristics take.
pub fn write_service(buffer: &mut Vec<u8>, service: &Service)
    ensures
        final(buffer)@ == old(buffer)@ + service_bytes(service_entry(service@)),
{
    let record = ServiceDescriptor {
        uuid: service.uuid,
        characteristic_count: record_count(service.characteristics.len()),
    };
    record.write(buffer);
    let ghost entries = characteristic_entries(service@.characteristics);
    let n: usize = service.characteristics.len();
    let mut i: usize = 0;
    assert(entries.take(0) =~= Seq::<CharacteristicEntry>::empty());
    while i < n
        invariant
            n == service.characteristics@.len(),
            entries == characteristic_entries(service@.characteristics),
            i <= n,
            buffer@ == old(buffer)@ + record.bytes() + characteristics_bytes(
                entries.take(i as int),
            ),
        decreases n - i,
    {
        write_characteristic(buffer, &service.characteristics[i]);
        proof {
            lemma_characteristics_bytes_push(entries.take(i as int), entries[i as int]);
            assert(entries.take(i + 1) =~= entries.take(i as int).push(entries[i as int]));
            assert(buffer@ =~= old(buffer)@ + record.bytes() + characteristics_bytes(
                entries.take(i + 1),
            ));
        }
        i = i + 1;
    }
    assert(entries.take(n as int) =~= entries);
    assert(buffer@ =~= old(buffer)@ + service_bytes(service_entry(service@)));
}

/// A buffer for `services` whose header is still blank: eight zero bytes,
/// then the number of services and the services.
pub fn write_services(services: &[Service]) -> (buffer: Vec<u8>)
    ensures
        buffer@ == Seq::new(HEADER_SIZE as nat, |i: int| 0u8) + body_bytes(
            service_entries(service_views(services@)),
        ),
{
    let mut buffer: Vec<u8> = Vec::new();
    let mut k: usize = 0;
    while k < HEADER_SIZE
        invariant
            k <= HEADER_SIZE,
            buffer@ == Seq::new(k as nat, |i: int| 0u8),
        decreases HEADER_SIZE - k,
    {
        buffer.push(0);
        k = k + 1;
        assert(buffer@ =~= Seq::new(k as nat, |i: int| 0u8));
    }
    let ghost blank = buffer@;
    let record = ServiceDescriptors { service_count: record_count(services.len()) };
    record.write(&mut buffer);
    let ghost entries = service_entries(service_views(services@));
    let n: usize = services.len();
    let mut i: usize = 0;
    assert(entries.take(0) =~= Seq::<ServiceEntry>::empty());
    while i < n
        invariant
            n == services@.len(),
            entries == service_entries(service_views(services@)),
            i <= n,
            buffer@ == blank + record.bytes() + services_bytes(entries.take(i as int)),
        decreases n - i,
    {
        write_service(&mut buffer, &services[i]);
        proof {
            lemma_services_bytes_push(entries.take(i as int), entries[i as int]);
            assert(entries.take(i + 1) =~= entries.take(i as int).push(entries[i as int]));
            assert(buffer@ =~= blank + record.bytes() + services_bytes(entries.take(i + 1)));
        }
        i = i + 1;
    }
    assert(entries.take(n as int) =~= entries);
    assert(buffer@ =~= blank + body_bytes(entries));
    buffer
}

/// Fills in the header of `buffer`: the length of the buffer, and
/// `capacity`. A buffer too short for a header stays as it is.
pub fn write_header(buffer: &mut Vec<u8>, capacity: usize)
    ensures
        old(buffer)@.len() < HEADER_SIZE ==> final(buffer)@ == old(buffer)@,
        old(buffer)@.len() >= HEADER_SIZE ==> final(buffer)@ == header_bytes(
            old(buffer)@.len() as int,
            capacity as int,
        ) + old(buffer)@.skip(HEADER_SIZE as int),
{
    if buffer.len() < HEADER_SIZE {
        return ;
    }
    let size: u32 = #[verifier::truncate]
    (buffer.len() as u32);
    let room: u32 = #[verifier::truncate]
    (capacity as u32);
    buffer.set(0, (size % 0x100) as u8);
    buffer.set(1, ((size / 0x100) % 0x100) as u8);
    buffer.set(2, ((size / 0x1_0000) % 0x100) as u8);
    buffer.set(3, ((size / 0x100_0000) % 0x100) as u8);
    buffer.set(4, (room % 0x100) as u8);
    buffer.set(5, ((room / 0x100) % 0x100) as u8);
    buffer.set(6, ((room / 0x1_0000) % 0x100) as u8);
    buffer.set(7, ((room / 0x100_0000) % 0x100) as u8);
    assert(buffer@ =~= header_bytes(old(buffer)@.len() as int, capacity as int) + old(
        buffer,
    )@.skip(HEADER_SIZE as int));
}

/// `Vec::capacity`: the number of bytes that `buffer` has room for without
/// another allocation, which is at least its length. How much more depends
/// on the allocator.
#[verifier::external_body]
fn allocated_capacity(buffer: &Vec<u8>) -> (capacity: usize)
    ensures
        capacity >= buffer@.len(),
{
    buffer.capacity()
}

/// The buffer for `services`, complete with its header. The capacity in the
/// header is that of the allocation of the buffer, which only the allocator
/// decides: it is some number not less than the length. A host that reads
/// the buffer by the offsets of its records finds `services`, as long as
/// they fit a buffer.
pub fn encode_services(services: &[Service]) -> (buffer: Vec<u8>)
    ensures
        exists|capacity: int|
            buffer@.len() <= capacity <= usize::MAX && buffer@ == #[trigger] buffer_bytes(
                service_entries(service_views(services@)),
                capacity,
            ),
        services_fit(service_entries(service_views(services@))) ==> decode_buffer(buffer@) == Some(
            service_entries(service_views(services@)),
        ),
{
    let mut buffer = write_services(services);
    let capacity = allocated_capacity(&buffer);
    let ghost blank = buffer@;
    let ghost entries = service_entries(service_views(services@));
    assert(blank.len() >= HEADER_SIZE);
    write_header(&mut buffer, capacity);
    proof {
        lemma_sealed(blank, buffer@, entries, capacity as int);
        assert(buffer@ == buffer_bytes(entries, capacity as int));
    }
    buffer
}

/// The two words of a header: the size of the buffer and the capacity of
/// its allocation, which is what the buffer is released with.
pub fn read_header(header: &[u8; 8]) -> (words: (u32, u32))
    ensures
        words.0 == header_size(header@),
        words.1 == header_capacity(header@),
{
    let size: u32 = header[0] as u32 + header[1] as u32 * 0x100 + header[2] as u32 * 0x1_0000
        + header[3] as u32 * 0x100_0000;
    let capacity: u32 = header[4] as u32 + header[5] as u32 * 0x100 + header[6] as u32 * 0x1_0000
        + header[7] as u32 * 0x100_0000;
    (size, capacity)
}

/// The buffer that hands the services known of the device of `peripheral`
/// to the host, with the status to report. Without a handle there is no
/// buffer.
pub fn peripheral_get_services(peripheral: Option<&CPeripheral>) -> (answer: (i32, Option<Vec<u8>>))
    ensures
        peripheral is None ==> answer.0 == INVALID_ARGUMENT && answer.1 is None,
        peripheral matches Some(p) ==> {
            &&& answer.0 == SUCCESS
            &&& answer.1 is Some
            &&& exists|capacity: int|
                answer.1->0@.len() <= capacity <= usize::MAX && answer.1->0@
                    == #[trigger] buffer_bytes(service_entries(p@.services), capacity)
            &&& services_fit(service_entries(p@.services)) ==> decode_buffer(answer.1->0@) == Some(
                service_entries(p@.services),
            )
        },
{
    match peripheral {
        None => (INVALID_ARGUMENT, None),
        Some(p) => (SUCCESS, Some(encode_services(p.services().as_slice()))),
    }
}

/// What to release a buffer with, read off its header: the length and the
/// capacity of its allocation, after the status to report. The header must
/// be that of a buffer that `peripheral_get_services` made and that was not
/// released before: nothing else tells a buffer from other memory.
pub fn free_peripheral_services(header: &[u8; 8]) -> (release: (i32, usize, usize))
    ensures
        release.0 == SUCCESS,
        release.1 == header_size(header@),
        release.2 == header_capacity(header@),
{
    let (size, capacity) = read_header(header);
    (SUCCESS, size as usize, capacity as usize)
}

} // verus!
