use vstd::prelude::*;
use crate::bridge::Bridge;
use crate::error::BridgeError;
use crate::ternary::TernaryValue;
use crate::text::{decimal, push_char, push_decimal};

verus! {

/// Different wire formats for encoding ternary data.
#[derive(Debug, Clone, Copy, PartialEq, Eq, Structural)]
pub enum WireFormat {
    /// Each ternary digit as one byte: -1 → 0xFF, 0 → 0x00, +1 → 0x01.
    BytePerTrit,
    /// Two trits per byte (packed nibble format).
    Packed,
    /// UTF-8 text: negative = 'T', zero = '0', positive = '1'.
    Text,
}

// ── The wire formats, mathematically ──────────────────────────────────────

/// The byte of a trit in the byte-per-trit format (its value as a two's
/// complement byte).
pub open spec fn trit_byte(t: TernaryValue) -> u8 {
    match t {
        TernaryValue::Negative => 0xFF,
        TernaryValue::Zero => 0x00,
        TernaryValue::Positive => 0x01,
    }
}

/// The nibble of a trit in the packed format.
pub open spec fn trit_nibble(t: TernaryValue) -> u8 {
    match t {
        TernaryValue::Negative => 3,
        TernaryValue::Zero => 0,
        TernaryValue::Positive => 1,
    }
}

/// The character code of a trit in the text format: 'T', '0' or '1'.
pub open spec fn trit_char_code(t: TernaryValue) -> u8 {
    match t {
        TernaryValue::Negative => 84,
        TernaryValue::Zero => 48,
        TernaryValue::Positive => 49,
    }
}

/// The byte holding two trits in the packed format: high nibble first.
pub open spec fn packed_byte(high: TernaryValue, low: TernaryValue) -> u8 {
    (trit_nibble(high) * 16 + trit_nibble(low)) as u8
}

/// Whether `values` can be written in `format`: the packed format needs an
/// even number of trits, the others take any.
pub open spec fn encodable(values: Seq<TernaryValue>, format: WireFormat) -> bool {
    format == WireFormat::Packed ==> values.len() % 2 == 0
}

/// The bytes that encode `values` in `format`.
pub open spec fn encoded(values: Seq<TernaryValue>, format: WireFormat) -> Seq<u8> {
    match format {
        WireFormat::BytePerTrit => Seq::new(values.len(), |i: int| trit_byte(values[i])),
        WireFormat::Packed => Seq::new(
            values.len() / 2,
            |i: int| packed_byte(values[2 * i], values[2 * i + 1]),
        ),
        WireFormat::Text => Seq::new(values.len(), |i: int| trit_char_code(values[i])),
    }
}

/// The message of the error for an odd number of trits in the packed format.
pub open spec fn odd_packed_message() -> Seq<char> {
    "Packed format requires even number of trits"@
}

/// A byte read as a two's complement signed byte.
pub open spec fn signed_byte(b: u8) -> int {
    if b < 128 {
        b as int
    } else {
        b - 256
    }
}

/// The units that a decoder reads one trit from each: the bytes themselves,
/// or in the packed format the nibbles, high nibble of each byte first.
pub open spec fn units(bytes: Seq<u8>, format: WireFormat) -> Seq<u8> {
    match format {
        WireFormat::Packed => Seq::new(
            2 * bytes.len(),
            |k: int|
                if k % 2 == 0 {
                    bytes[k / 2] / 16
                } else {
                    bytes[k / 2] % 16
                },
        ),
        _ => bytes,
    }
}

/// The trit that a unit stands for in `format`, if any.
pub open spec fn unit_trit(u: u8, format: WireFormat) -> Option<TernaryValue> {
    match format {
        WireFormat::BytePerTrit => TernaryValue::from_int(signed_byte(u)),
        WireFormat::Packed => if u == 0 {
            Some(TernaryValue::Zero)
        } else if u == 1 {
            Some(TernaryValue::Positive)
        } else if u == 3 {
            Some(TernaryValue::Negative)
        } else {
            None
        },
        WireFormat::Text => if u == 84 {
            Some(TernaryValue::Negative)
        } else if u == 48 {
            Some(TernaryValue::Zero)
        } else if u == 49 {
            Some(TernaryValue::Positive)
        } else {
            None
        },
    }
}

/// The message of the error for a unit that stands for no trit.
pub open spec fn unit_error(u: u8, format: WireFormat) -> Seq<char> {
    match format {
        WireFormat::BytePerTrit => "Invalid trit byte: "@ + decimal(signed_byte(u)),
        WireFormat::Packed => "Invalid packed trit nibble: "@ + decimal(u as int),
        WireFormat::Text => "Invalid text trit: '"@ + seq![u as char] + "'"@,
    }
}

/// Whether every unit of `bytes` stands for a trit in `format`.
pub open spec fn decodable(bytes: Seq<u8>, format: WireFormat) -> bool {
    forall|k: int|
        0 <= k < units(bytes, format).len() ==> (#[trigger] unit_trit(
            units(bytes, format)[k],
            format,
        )) is Some
}

/// The trits that `bytes` decode to in `format` (where they are decodable).
pub open spec fn decoded(bytes: Seq<u8>, format: WireFormat) -> Seq<TernaryValue> {
    Seq::new(units(bytes, format).len(), |k: int| unit_trit(units(bytes, format)[k], format)->0)
}

/// Unit `k` is the first unit of `bytes` that stands for no trit.
pub open spec fn first_invalid_unit(bytes: Seq<u8>, format: WireFormat, k: int) -> bool {
    &&& 0 <= k < units(bytes, format).len()
    &&& unit_trit(units(bytes, format)[k], format) is None
    &&& forall|j: int| 0 <= j < k ==> (#[trigger] unit_trit(units(bytes, format)[j], format)) is Some
}

// ── The codec ─────────────────────────────────────────────────────────────

/// Encodes and decodes ternary data between wire formats.
pub struct CodecBridge;

/// A trit's value as a two's complement byte.
fn byte_of(t: TernaryValue) -> (b: u8)
    ensures
        b == trit_byte(t),
{
    let v = t.to_i8();
    assert(v == -1 ==> v as u8 == 0xFF) by (bit_vector);
    v as u8
}

/// A trit's nibble in the packed format.
fn nibble_of(t: TernaryValue) -> (n: u8)
    ensures
        n == trit_nibble(t),
{
    // Negative(-1) -> 3, Zero(0) -> 0, Positive(1) -> 1
    match t {
        TernaryValue::Negative => 3u8,
        TernaryValue::Zero => 0u8,
        TernaryValue::Positive => 1u8,
    }
}

/// A trit's character code in the text format: 'T', '0' or '1'.
fn char_code_of(t: TernaryValue) -> (c: u8)
    ensures
        c == trit_char_code(t),
{
    match t {
        TernaryValue::Negative => 84u8,
        TernaryValue::Zero => 48u8,
        TernaryValue::Positive => 49u8,
    }
}

impl CodecBridge {
    /// Encode ternary values to the specified wire format.
    pub fn encode(values: &[TernaryValue], format: WireFormat) -> (r: Result<Vec<u8>, BridgeError>)
        ensures
            r is Ok <==> encodable(values@, format),
            r matches Ok(b) ==> b@ == encoded(values@, format),
            r matches Err(e) ==> e.message@ == odd_packed_message(),
    {
        match format {
            WireFormat::BytePerTrit => {
                let mut result: Vec<u8> = Vec::new();
                for i in 0..values.len()
                    invariant
                        result@.len() == i,
                        forall|j: int| 0 <= j < i ==> result@[j] == trit_byte(values@[j]),
                {
                    result.push(byte_of(values[i]));
                }
                assert(result@ =~= encoded(values@, format));
                Ok(result)
            },
            WireFormat::Packed => {
                if values.len() % 2 != 0 {
                    return Err(BridgeError::new("Packed format requires even number of trits"));
                }
                let mut result: Vec<u8> = Vec::new();
                let len = values.len();
                let half = len / 2;
                let mut i: usize = 0;
                while i < half
                    invariant
                        len == values@.len(),
                        half == len / 2,
                        len % 2 == 0,
                        i <= half,
                        result@.len() == i,
                        forall|j: int|
                            0 <= j < i ==> result@[j] == packed_byte(values@[2 * j], values@[2 * j + 1]),
                    decreases half - i,
                {
                    let high = nibble_of(values[2 * i]);
                    let low = nibble_of(values[2 * i + 1]);
                    assert((high << 4u8) | low == high * 16 + low) by (bit_vector)
                        requires
                            high <= 3,
                            low <= 3,
                    ;
                    result.push((high << 4u8) | low);
                    i = i + 1;
                }
                assert(result@ =~= encoded(values@, format));
                Ok(result)
            },
            WireFormat::Text => {
                let mut result: Vec<u8> = Vec::new();
                for i in 0..values.len()
                    invariant
                        result@.len() == i,
                        forall|j: int| 0 <= j < i ==> result@[j] == trit_char_code(values@[j]),
                {
                    result.push(char_code_of(values[i]));
                }
                assert(result@ =~= encoded(values@, format));
                Ok(result)
            },
        }
    }

    /// The trit of a packed nibble, or the error naming the nibble.
    fn nibble_to_trit(n: u8) -> (r: Result<TernaryValue, BridgeError>)
        ensures
            r is Ok <==> unit_trit(n, WireFormat::Packed) is Some,
            r matches Ok(t) ==> unit_trit(n, WireFormat::Packed) == Some(t),
            r matches Err(e) ==> e.message@ == unit_error(n, WireFormat::Packed),
    {
        match n {
            0 => Ok(TernaryValue::Zero),
            1 => Ok(TernaryValue::Positive),
            3 => Ok(TernaryValue::Negative),
            _ => {
                let mut m = "Invalid packed trit nibble: ".to_owned();
                push_decimal(&mut m, n as i16);
                Err(BridgeError::from_message(m))
            },
        }
    }

    /// Decode bytes from the specified wire format into ternary values.
    pub fn decode(bytes: &[u8], format: WireFormat) -> (r: Result<Vec<TernaryValue>, BridgeError>)
        ensures
            r is Ok <==> decodable(bytes@, format),
            r matches Ok(v) ==> v@ == decoded(bytes@, format),
            r matches Err(e) ==> exists|k: int|
                first_invalid_unit(bytes@, format, k) && e.message@ == unit_error(
                    units(bytes@, format)[k],
                    format,
                ),
    {
        let mut result: Vec<TernaryValue> = Vec::new();
        let len = bytes.len();
        let mut i: usize = 0;
        match format {
            WireFormat::BytePerTrit => {
                while i < len
                    invariant
                        len == bytes@.len(),
                        format == WireFormat::BytePerTrit,
                        i <= len,
                        result@.len() == i,
                        forall|j: int|
                            0 <= j < i ==> (#[trigger] unit_trit(bytes@[j], format)) == Some(
                                result@[j],
                            ),
                    decreases len - i,
                {
                    let b = bytes[i];
                    let signed: i8 = if b < 128 {
                        b as i8
                    } else {
                        (b as i16 - 256) as i8
                    };
                    match TernaryValue::from_i8(signed) {
                        Some(t) => {
                            result.push(t);
                        },
                        None => {
                            let mut m = "Invalid trit byte: ".to_owned();
                            push_decimal(&mut m, signed as i16);
                            assert(first_invalid_unit(bytes@, format, i as int));
                            return Err(BridgeError::from_message(m));
                        },
                    }
                    i = i + 1;
                }
            },
            WireFormat::Packed => {
                while i < len
                    invariant
                        len == bytes@.len(),
                        format == WireFormat::Packed,
                        i <= len,
                        result@.len() == 2 * i,
                        units(bytes@, format).len() == 2 * len,
                        forall|j: int|
                            0 <= j < 2 * i ==> (#[trigger] unit_trit(units(bytes@, format)[j], format))
                                == Some(result@[j]),
                    decreases len - i,
                {
                    let byte = bytes[i];
                    let high = (byte >> 4u8) & 0x0Fu8;
                    let low = byte & 0x0Fu8;
                    assert(high == byte / 16 && low == byte % 16) by (bit_vector)
                        requires
                            high == (byte >> 4u8) & 0x0Fu8,
                            low == byte & 0x0Fu8,
                    ;
                    let ghost us = units(bytes@, format);
                    assert(us[2 * i as int] == high) by {
                        assert((2 * i as int) % 2 == 0 && (2 * i as int) / 2 == i);
                    }
                    assert(us[2 * i + 1] == low) by {
                        assert((2 * i + 1) % 2 == 1 && (2 * i + 1) / 2 == i);
                    }
                    match Self::nibble_to_trit(high) {
                        Ok(t) => result.push(t),
                        Err(e) => {
                            assert(first_invalid_unit(bytes@, format, 2 * i as int));
                            return Err(e);
                        },
                    }
                    match Self::nibble_to_trit(low) {
                        Ok(t) => result.push(t),
                        Err(e) => {
                            assert(first_invalid_unit(bytes@, format, 2 * i + 1));
                            return Err(e);
                        },
                    }
                    i = i + 1;
                }
            },
            WireFormat::Text => {
                while i < len
                    invariant
                        len == bytes@.len(),
                        format == WireFormat::Text,
                        i <= len,
                        result@.len() == i,
                        forall|j: int|
                            0 <= j < i ==> (#[trigger] unit_trit(bytes@[j], format)) == Some(
                                result@[j],
                            ),
                    decreases len - i,
                {
                    let b = bytes[i];
                    if b == 84u8 {
                        result.push(TernaryValue::Negative);
                    } else if b == 48u8 {
                        result.push(TernaryValue::Zero);
                    } else if b == 49u8 {
                        result.push(TernaryValue::Positive);
                    } else {
                        let mut m = "Invalid text trit: '".to_owned();
                        push_char(&mut m, b as char);
                        push_char(&mut m, '\'');
                        proof {
                            reveal_strlit("'");
                        }
                        assert(first_invalid_unit(bytes@, format, i as int));
                        return Err(BridgeError::from_message(m));
                    }
                    i = i + 1;
                }
            },
        }
        assert(result@ =~= decoded(bytes@, format));
        Ok(result)
    }
}

impl Bridge<Vec<TernaryValue>, Vec<u8>> for CodecBridge {
    type Error = BridgeError;

    open spec fn accepts_forward(&self, value: &Vec<TernaryValue>) -> bool {
        true
    }

    /// Encodes in the byte-per-trit format.
    fn forward(&mut self, values: &Vec<TernaryValue>) -> (r: Result<Vec<u8>, BridgeError>)
        ensures
            r matches Ok(b) && b@ == encoded(values@, WireFormat::BytePerTrit),
    {
        Self::encode(values.as_slice(), WireFormat::BytePerTrit)
    }

    /// Decodes from the byte-per-trit format.
    fn backward(&self, bytes: &Vec<u8>) -> (r: Result<Vec<TernaryValue>, BridgeError>)
        ensures
            r is Ok <==> decodable(bytes@, WireFormat::BytePerTrit),
            r matches Ok(v) ==> v@ == decoded(bytes@, WireFormat::BytePerTrit),
            r matches Err(e) ==> exists|k: int|
                first_invalid_unit(bytes@, WireFormat::BytePerTrit, k) && e.message@ == unit_error(
                    bytes@[k],
                    WireFormat::BytePerTrit,
                ),
    {
        Self::decode(bytes.as_slice(), WireFormat::BytePerTrit)
    }
}

proof fn lemma_packed_byte_nibbles(high: TernaryValue, low: TernaryValue)
    ensures
        packed_byte(high, low) / 16 == trit_nibble(high),
        packed_byte(high, low) % 16 == trit_nibble(low),
{
    let h = trit_nibble(high) as int;
    let l = trit_nibble(low) as int;
    assert((h * 16 + l) / 16 == h && (h * 16 + l) % 16 == l) by (nonlinear_arith)
        requires
            0 <= h <= 3,
            0 <= l <= 3,
    ;
}

/// Encoding then decoding gives the trits back, in every wire format: each
/// trit sequence that a format can hold is read back exactly from its bytes.
pub proof fn lemma_codec_roundtrip(values: Seq<TernaryValue>, format: WireFormat)
    requires
        encodable(values, format),
    ensures
        decodable(encoded(values, format), format),
        decoded(encoded(values, format), format) == values,
{
    let bytes = encoded(values, format);
    let us = units(bytes, format);
    if format == WireFormat::Packed {
        assert forall|k: int| 0 <= k < us.len() implies us[k] == trit_nibble(values[k]) by {
            let i = k / 2;
            assert(0 <= i < values.len() / 2);
            assert(2 * i == k || 2 * i + 1 == k);
            lemma_packed_byte_nibbles(values[2 * i], values[2 * i + 1]);
        }
        assert(us.len() == values.len());
    }
    assert forall|k: int| 0 <= k < us.len() implies #[trigger] unit_trit(us[k], format) == Some(
        values[k],
    ) by {
        match values[k] {
            TernaryValue::Negative => {},
            TernaryValue::Zero => {},
            TernaryValue::Positive => {},
        }
    }
    assert(decoded(bytes, format) =~= values);
}

/// Decoding then encoding gives the bytes back, in every wire format: bytes
/// that decode at all are exactly the encoding of what they decode to.
pub proof fn lemma_codec_decode_encode(bytes: Seq<u8>, format: WireFormat)
    requires
        decodable(bytes, format),
    ensures
        encodable(decoded(bytes, format), format),
        encoded(decoded(bytes, format), format) == bytes,
{
    let us = units(bytes, format);
    let values = decoded(bytes, format);
    assert forall|k: int| 0 <= k < us.len() implies (format == WireFormat::Packed ==> trit_nibble(
        #[trigger] values[k],
    ) == us[k]) && (format == WireFormat::BytePerTrit ==> trit_byte(values[k]) == us[k]) && (format
        == WireFormat::Text ==> trit_char_code(values[k]) == us[k]) by {
        assert(unit_trit(us[k], format) is Some);
    }
    if format == WireFormat::Packed {
        assert(values.len() == 2 * bytes.len());
        assert(values.len() / 2 == bytes.len());
        assert forall|i: int| 0 <= i < bytes.len() implies packed_byte(
            values[2 * i],
            values[2 * i + 1],
        ) == bytes[i] by {
            assert((2 * i) % 2 == 0 && (2 * i) / 2 == i);
            assert((2 * i + 1) % 2 == 1 && (2 * i + 1) / 2 == i);
            let b = bytes[i] as int;
            assert(b == (b / 16) * 16 + b % 16) by (nonlinear_arith);
        }
    }
    assert(encoded(values, format) =~= bytes);
}

/// Which formats take which trit sequences: the byte-per-trit and text
/// formats take every sequence, the packed format exactly those of even length.
pub proof fn lemma_encodable_exactly(values: Seq<TernaryValue>)
    ensures
        encodable(values, WireFormat::BytePerTrit),
        encodable(values, WireFormat::Text),
        encodable(values, WireFormat::Packed) <==> values.len() % 2 == 0,
{
}

/// Byte-per-trit encoding writes one byte per trit, each on its own: -1 is
/// 0xFF, 0 is 0x00 and +1 is 0x01, whatever the length of the input.
pub proof fn lemma_byte_per_trit_encoding(values: Seq<TernaryValue>, i: int)
    requires
        0 <= i < values.len(),
    ensures
        encoded(values, WireFormat::BytePerTrit).len() == values.len(),
        values[i] == TernaryValue::Negative ==> encoded(values, WireFormat::BytePerTrit)[i] == 0xFFu8,
        values[i] == TernaryValue::Zero ==> encoded(values, WireFormat::BytePerTrit)[i] == 0x00u8,
        values[i] == TernaryValue::Positive ==> encoded(values, WireFormat::BytePerTrit)[i] == 0x01u8,
{
}

/// Byte-per-trit decoding reads each byte on its own as a signed byte: the
/// bytes 0xFF, 0x00 and 0x01 are -1, 0 and +1, every other byte is refused,
/// and the k-th trit comes from the k-th byte whatever the length of the input.
pub proof fn lemma_byte_per_trit_decoding(bytes: Seq<u8>, k: int)
    requires
        0 <= k < bytes.len(),
    ensures
        decodable(bytes, WireFormat::BytePerTrit) <==> (forall|j: int|
            0 <= j < bytes.len() ==> #[trigger] bytes[j] == 0xFFu8 || bytes[j] == 0x00u8 || bytes[j]
                == 0x01u8),
        decodable(bytes, WireFormat::BytePerTrit) ==> {
            let v = decoded(bytes, WireFormat::BytePerTrit);
            &&& v.len() == bytes.len()
            &&& bytes[k] == 0xFFu8 ==> v[k] == TernaryValue::Negative
            &&& bytes[k] == 0x00u8 ==> v[k] == TernaryValue::Zero
            &&& bytes[k] == 0x01u8 ==> v[k] == TernaryValue::Positive
        },
{
    let us = units(bytes, WireFormat::BytePerTrit);
    if decodable(bytes, WireFormat::BytePerTrit) {
        assert forall|j: int| 0 <= j < bytes.len() implies #[trigger] bytes[j] == 0xFFu8 || bytes[j]
            == 0x00u8 || bytes[j] == 0x01u8 by {
            assert(unit_trit(us[j], WireFormat::BytePerTrit) is Some);
        }
        assert(unit_trit(us[k], WireFormat::BytePerTrit) is Some);
    }
    if forall|j: int|
        0 <= j < bytes.len() ==> #[trigger] bytes[j] == 0xFFu8 || bytes[j] == 0x00u8 || bytes[j]
            == 0x01u8 {
        assert forall|j: int| 0 <= j < us.len() implies (#[trigger] unit_trit(
            us[j],
            WireFormat::BytePerTrit,
        )) is Some by {
            assert(bytes[j] == 0xFFu8 || bytes[j] == 0x00u8 || bytes[j] == 0x01u8);
        }
    }
}

/// Packed encoding writes each pair of trits into one byte, the first trit
/// in the high nibble and the second in the low nibble, with -1 as 3, 0 as 0
/// and +1 as 1.
pub proof fn lemma_packed_encoding(values: Seq<TernaryValue>, i: int)
    requires
        values.len() % 2 == 0,
        0 <= i < values.len() / 2,
    ensures
        encoded(values, WireFormat::Packed).len() * 2 == values.len(),
        ({
            let b = encoded(values, WireFormat::Packed)[i];
            let nib = |t: TernaryValue|
                if t == TernaryValue::Negative {
                    3int
                } else if t == TernaryValue::Zero {
                    0int
                } else {
                    1int
                };
            b as int == nib(values[2 * i]) * 16 + nib(values[2 * i + 1])
        }),
{
}

/// Packed decoding reads each byte as two trits, high nibble first: the
/// nibbles 3, 0 and 1 are -1, 0 and +1 and every other nibble is refused.
pub proof fn lemma_packed_decoding(bytes: Seq<u8>, i: int)
    requires
        0 <= i < bytes.len(),
        decodable(bytes, WireFormat::Packed),
    ensures
        decoded(bytes, WireFormat::Packed).len() == 2 * bytes.len(),
        ({
            let v = decoded(bytes, WireFormat::Packed);
            let trit = |n: int|
                if n == 3 {
                    TernaryValue::Negative
                } else if n == 0 {
                    TernaryValue::Zero
                } else {
                    TernaryValue::Positive
                };
            &&& (bytes[i] / 16 == 0 || bytes[i] / 16 == 1 || bytes[i] / 16 == 3)
            &&& (bytes[i] % 16 == 0 || bytes[i] % 16 == 1 || bytes[i] % 16 == 3)
            &&& v[2 * i] == trit((bytes[i] / 16) as int)
            &&& v[2 * i + 1] == trit((bytes[i] % 16) as int)
        }),
{
    let us = units(bytes, WireFormat::Packed);
    assert((2 * i) % 2 == 0 && (2 * i) / 2 == i);
    assert((2 * i + 1) % 2 == 1 && (2 * i + 1) / 2 == i);
    assert(unit_trit(us[2 * i], WireFormat::Packed) is Some);
    assert(unit_trit(us[2 * i + 1], WireFormat::Packed) is Some);
}

/// Text encoding writes one character per trit: 'T' for -1, '0' for 0 and
/// '1' for +1.
pub proof fn lemma_text_encoding(values: Seq<TernaryValue>, i: int)
    requires
        0 <= i < values.len(),
    ensures
        encoded(values, WireFormat::Text).len() == values.len(),
        values[i] == TernaryValue::Negative ==> encoded(values, WireFormat::Text)[i] == 'T' as u8,
        values[i] == TernaryValue::Zero ==> encoded(values, WireFormat::Text)[i] == '0' as u8,
        values[i] == TernaryValue::Positive ==> encoded(values, WireFormat::Text)[i] == '1' as u8,
{
}

/// Text decoding reads one trit per character: 'T', '0' and '1' are -1, 0
/// and +1 and every other byte is refused.
pub proof fn lemma_text_decoding(bytes: Seq<u8>, k: int)
    requires
        0 <= k < bytes.len(),
        decodable(bytes, WireFormat::Text),
    ensures
        decoded(bytes, WireFormat::Text).len() == bytes.len(),
        bytes[k] == 'T' as u8 || bytes[k] == '0' as u8 || bytes[k] == '1' as u8,
        bytes[k] == 'T' as u8 ==> decoded(bytes, WireFormat::Text)[k] == TernaryValue::Negative,
        bytes[k] == '0' as u8 ==> decoded(bytes, WireFormat::Text)[k] == TernaryValue::Zero,
        bytes[k] == '1' as u8 ==> decoded(bytes, WireFormat::Text)[k] == TernaryValue::Positive,
{
    assert(unit_trit(units(bytes, WireFormat::Text)[k], WireFormat::Text) is Some);
}

} // verus!
