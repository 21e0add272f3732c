use vstd::prelude::*;

verus! {

/// A device's five-byte reply.
///
/// Power is carried as the bit pattern of an IEEE-754 single-precision float
/// (`f32::to_bits`), which is exactly what travels on the wire.
#[derive(Debug, Clone, Copy, PartialEq, Eq, Structural)]
pub enum Response {
    Success,
    /// Whether the device is enabled, and the bits of its power draw.
    Info(bool, u32),
    Unknown,
}

/// Discriminant byte of `Response::Success`.
pub const DISC_SUCCESS: u8 = 0;

/// Discriminant byte of an `Info` reply from an enabled device.
pub const DISC_INFO_ENABLED: u8 = 1;

/// Discriminant byte of an `Info` reply from a disabled device.
pub const DISC_INFO_DISABLED: u8 = 2;

/// Discriminant byte of `Response::Unknown`.
pub const DISC_UNKNOWN: u8 = 255;

/// The four big-endian bytes of a 32-bit value, most significant first.
pub open spec fn be_bytes(x: u32) -> Seq<u8> {
    seq![(x >> 24u32) as u8, (x >> 16u32) as u8, (x >> 8u32) as u8, x as u8]
}

/// The 32-bit value whose big-endian bytes are `b0 b1 b2 b3`.
pub open spec fn be_value(b0: u8, b1: u8, b2: u8, b3: u8) -> u32 {
    ((b0 as u32) << 24u32) | ((b1 as u32) << 16u32) | ((b2 as u32) << 8u32) | (b3 as u32)
}

/// Reading back the big-endian bytes of a value gives the value.
pub proof fn lemma_be_round_trip(x: u32)
    ensures
        be_value(be_bytes(x)[0], be_bytes(x)[1], be_bytes(x)[2], be_bytes(x)[3]) == x,
{
    assert((((x >> 24u32) as u8 as u32) << 24u32) | (((x >> 16u32) as u8 as u32) << 16u32) | (((x
        >> 8u32) as u8 as u32) << 8u32) | (x as u8 as u32) == x) by (bit_vector);
}

/// The five bytes that a response is written as: a discriminant, then the
/// power bits big-endian for `Info` and zeros otherwise.
pub open spec fn response_bytes(r: Response) -> Seq<u8> {
    match r {
        Response::Success => seq![DISC_SUCCESS, 0u8, 0u8, 0u8, 0u8],
        Response::Info(enabled, power) => seq![
            if enabled {
                DISC_INFO_ENABLED
            } else {
                DISC_INFO_DISABLED
            },
        ].add(be_bytes(power)),
        Response::Unknown => seq![DISC_UNKNOWN, 0u8, 0u8, 0u8, 0u8],
    }
}

/// The response that five bytes are read as: discriminant `0` is `Success`, `1`
/// and `2` are `Info` with the power taken big-endian from the last four
/// bytes, anything else is `Unknown`.
pub open spec fn response_of(bytes: Seq<u8>) -> Response
    recommends
        bytes.len() == 5,
{
    if bytes[0] == DISC_SUCCESS {
        Response::Success
    } else if bytes[0] == DISC_INFO_ENABLED || bytes[0] == DISC_INFO_DISABLED {
        Response::Info(bytes[0] == DISC_INFO_ENABLED, be_value(bytes[1], bytes[2], bytes[3], bytes[4]))
    } else {
        Response::Unknown
    }
}

/// The wire bytes of a response, as an array.
pub open spec fn response_array(r: Response) -> [u8; 5] {
    let b = response_bytes(r);
    [b[0], b[1], b[2], b[3], b[4]]
}

/// Writes a response as its five wire bytes.
pub fn encode_response(r: Response) -> (bytes: [u8; 5])
    ensures
        bytes@ == response_bytes(r),
        bytes == response_array(r),
{
    let bytes: [u8; 5] = match r {
        Response::Success => [DISC_SUCCESS, 0, 0, 0, 0],
        Response::Info(enabled, power) => {
            let disc: u8 = if enabled {
                DISC_INFO_ENABLED
            } else {
                DISC_INFO_DISABLED
            };
            [disc, (power >> 24u32) as u8, (power >> 16u32) as u8, (power >> 8u32) as u8, power as u8]
        },
        Response::Unknown => [DISC_UNKNOWN, 0, 0, 0, 0],
    };
    assert(bytes@ =~= response_bytes(r));
    bytes
}

/// Reads five wire bytes as a response. Total: an unrecognised discriminant
/// is the `Unknown` response, not an error.
pub fn decode_response(bytes: [u8; 5]) -> (r: Response)
    ensures
        r == response_of(bytes@),
{
    let disc: u8 = bytes[0];
    if disc == DISC_SUCCESS {
        Response::Success
    } else if disc == DISC_INFO_ENABLED || disc == DISC_INFO_DISABLED {
        let power: u32 = ((bytes[1] as u32) << 24u32) | ((bytes[2] as u32) << 16u32) | ((
        bytes[3] as u32) << 8u32) | (bytes[4] as u32);
        Response::Info(disc == DISC_INFO_ENABLED, power)
    } else {
        Response::Unknown
    }
}

/// Decoding the bytes of a response gives the response back.
pub proof fn lemma_response_decode_encode(r: Response)
    ensures
        response_of(response_bytes(r)) == r,
{
    if let Response::Info(enabled, power) = r {
        lemma_be_round_trip(power);
    }
}

/// The wire format is stable: encoding a response, decoding those bytes and
/// encoding again gives the same five bytes.
pub proof fn lemma_response_round_trip_stable(r: Response)
    ensures
        response_bytes(response_of(response_bytes(r))) == response_bytes(r),
{
    lemma_response_decode_encode(r);
}

impl From<Response> for [u8; 5] {
    fn from(r: Response) -> (bytes: [u8; 5]) {
        encode_response(r)
    }
}

impl vstd::std_specs::convert::FromSpecImpl<Response> for [u8; 5] {
    open spec fn obeys_from_spec() -> bool {
        true
    }

    open spec fn from_spec(r: Response) -> [u8; 5] {
        response_array(r)
    }
}

impl From<[u8; 5]> for Response {
    fn from(bytes: [u8; 5]) -> (r: Response) {
        decode_response(bytes)
    }
}

impl vstd::std_specs::convert::FromSpecImpl<[u8; 5]> for Response {
    open spec fn obeys_from_spec() -> bool {
        true
    }

    open spec fn from_spec(bytes: [u8; 5]) -> Response {
        response_of(bytes@)
    }
}

} // verus!
