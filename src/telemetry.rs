use vstd::prelude::*;

use crate::response::{be_bytes, be_value};

verus! {

/// The length byte that a telemetry datagram must carry: four payload bytes.
pub const TELEMETRY_PAYLOAD_LEN: u8 = 4;

/// A datagram whose length byte is not four, or that is too short to hold a
/// temperature.
#[derive(Debug, Clone, Copy, PartialEq, Eq, Structural)]
pub struct InvalidDatagram;

/// A datagram is valid when it holds at least five bytes and its first byte
/// says the payload is four bytes long.
pub open spec fn datagram_valid(bytes: Seq<u8>) -> bool {
    bytes.len() >= 5 && bytes[0] == TELEMETRY_PAYLOAD_LEN
}

/// The temperature bits that a valid datagram carries, big-endian in bytes
/// one to four.
pub open spec fn datagram_temperature(bytes: Seq<u8>) -> u32
    recommends
        bytes.len() >= 5,
{
    be_value(bytes[1], bytes[2], bytes[3], bytes[4])
}

/// The five bytes of a telemetry datagram carrying the given temperature bits.
pub open spec fn datagram_bytes(temperature: u32) -> Seq<u8> {
    seq![TELEMETRY_PAYLOAD_LEN].add(be_bytes(temperature))
}

/// Reads a telemetry datagram: the bits of the `f32` temperature it carries,
/// or `InvalidDatagram` exactly when it is shorter than five bytes or its
/// length byte is not four.
pub fn decode_telemetry(bytes: &[u8]) -> (r: Result<u32, InvalidDatagram>)
    ensures
        r is Ok <==> datagram_valid(bytes@),
        r matches Ok(t) ==> t == datagram_temperature(bytes@),
        r matches Err(e) ==> e == InvalidDatagram,
{
    if bytes.len() < 5 || bytes[0] != TELEMETRY_PAYLOAD_LEN {
        return Err(InvalidDatagram);
    }
    let t: u32 = ((bytes[1] as u32) << 24u32) | ((bytes[2] as u32) << 16u32) | ((bytes[3] as u32)
        << 8u32) | (bytes[4] as u32);
    Ok(t)
}

/// Writes the telemetry datagram that carries the given temperature bits.
pub fn encode_telemetry(temperature: u32) -> (bytes: [u8; 5])
    ensures
        bytes@ == datagram_bytes(temperature),
{
    let bytes: [u8; 5] = [
        TELEMETRY_PAYLOAD_LEN,
        (temperature >> 24u32) as u8,
        (temperature >> 16u32) as u8,
        (temperature >> 8u32) as u8,
        temperature as u8,
    ];
    assert(bytes@ =~= datagram_bytes(temperature));
    bytes
}

/// A written datagram is valid and reads back as the temperature it was
/// written with.
pub proof fn lemma_telemetry_round_trip(temperature: u32)
    ensures
        datagram_valid(datagram_bytes(temperature)),
        datagram_temperature(datagram_bytes(temperature)) == temperature,
{
    crate::response::lemma_be_round_trip(temperature);
}

/// The latest temperature a thermometer has received, as `f32` bits. It
/// starts at the bits of `0.0`, is overwritten by every valid datagram and
/// is never reset.
pub struct SmartThermometer {
    temperature: u32,
}

/// The latest temperature after a datagram arrives: the one it carries if
/// it is valid, the previous one if not.
pub open spec fn after_datagram(latest: u32, bytes: Seq<u8>) -> u32 {
    if datagram_valid(bytes) {
        datagram_temperature(bytes)
    } else {
        latest
    }
}

impl View for SmartThermometer {
    type V = u32;

    closed spec fn view(&self) -> u32 {
        self.temperature
    }
}

impl SmartThermometer {
    /// A thermometer that has received nothing yet: it reads `0.0`.
    pub fn new() -> (t: SmartThermometer)
        ensures
            t@ == 0,
    {
        SmartThermometer { temperature: 0 }
    }

    /// Takes in one received datagram. A valid one replaces the latest
    /// temperature; an invalid one is reported and changes nothing.
    pub fn ingest(&mut self, datagram: &[u8]) -> (r: Result<(), InvalidDatagram>)
        ensures
            r is Ok <==> datagram_valid(datagram@),
            final(self)@ == after_datagram(old(self)@, datagram@),
    {
        match decode_telemetry(datagram) {
            Ok(t) => {
                self.temperature = t;
                Ok(())
            },
            Err(e) => Err(e),
        }
    }

    /// The latest temperature, as `f32` bits.
    pub fn get_temperature(&self) -> (t: u32)
        ensures
            t == self@,
    {
        self.temperature
    }
}

/// A valid datagram sets the latest temperature to exactly what it carries,
/// and an invalid one that follows leaves that value in place.
pub proof fn lemma_invalid_datagram_keeps_latest(latest: u32, good: Seq<u8>, bad: Seq<u8>)
    requires
        datagram_valid(good),
        !datagram_valid(bad),
    ensures
        after_datagram(latest, good) == datagram_temperature(good),
        after_datagram(after_datagram(latest, good), bad) == datagram_temperature(good),
{
}

} // verus!
