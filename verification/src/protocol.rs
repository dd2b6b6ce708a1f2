use vstd::prelude::*;
use crate::bridge::Bridge;
use crate::error::BridgeError;
use crate::ternary::TernaryValue;
use crate::text::{decimal, push_decimal};

verus! {

/// A message in the ternary-protocol format.
#[derive(Debug, Clone, PartialEq, Eq)]
pub struct ProtocolMessage {
    pub source: String,
    pub destination: String,
    pub payload: Vec<TernaryValue>,
    pub sequence: u32,
}

/// A message in the oracle I2I format.
#[derive(Debug, Clone, PartialEq, Eq)]
pub struct OracleMessage {
    pub from_node: String,
    pub to_node: String,
    pub data: Vec<i8>,
    pub msg_id: u32,
}

/// What a `ProtocolMessage` holds, as mathematical values.
#[verifier::ext_equal]
pub struct ProtocolMessageView {
    pub source: Seq<char>,
    pub destination: Seq<char>,
    pub payload: Seq<TernaryValue>,
    pub sequence: u32,
}

/// What an `OracleMessage` holds, as mathematical values.
#[verifier::ext_equal]
pub struct OracleMessageView {
    pub from_node: Seq<char>,
    pub to_node: Seq<char>,
    pub data: Seq<i8>,
    pub msg_id: u32,
}

impl View for ProtocolMessage {
    type V = ProtocolMessageView;

    open spec fn view(&self) -> ProtocolMessageView {
        ProtocolMessageView {
            source: self.source@,
            destination: self.destination@,
            payload: self.payload@,
            sequence: self.sequence,
        }
    }
}

impl View for OracleMessage {
    type V = OracleMessageView;

    open spec fn view(&self) -> OracleMessageView {
        OracleMessageView {
            from_node: self.from_node@,
            to_node: self.to_node@,
            data: self.data@,
            msg_id: self.msg_id,
        }
    }
}

impl ProtocolMessage {
    /// A message from `source` to `destination` with sequence number 0.
    pub fn new(source: &str, destination: &str, payload: Vec<TernaryValue>) -> (m: ProtocolMessage)
        ensures
            m@ == (ProtocolMessageView {
                source: source@,
                destination: destination@,
                payload: payload@,
                sequence: 0,
            }),
    {
        ProtocolMessage {
            source: source.to_owned(),
            destination: destination.to_owned(),
            payload,
            sequence: 0,
        }
    }
}

impl OracleMessage {
    /// A message from `from` to `to` with message id 0.
    pub fn new(from: &str, to: &str, data: Vec<i8>) -> (m: OracleMessage)
        ensures
            m@ == (OracleMessageView { from_node: from@, to_node: to@, data: data@, msg_id: 0 }),
    {
        OracleMessage { from_node: from.to_owned(), to_node: to.to_owned(), data, msg_id: 0 }
    }
}

// ── The conversion, mathematically ───────────────────────────────────────

/// The i8 values of a sequence of trits.
pub open spec fn trits_to_i8s(s: Seq<TernaryValue>) -> Seq<i8> {
    Seq::new(s.len(), |i: int| s[i].value() as i8)
}

/// Whether every value of `s` is -1, 0 or +1.
pub open spec fn all_ternary(s: Seq<i8>) -> bool {
    forall|i: int| 0 <= i < s.len() ==> (#[trigger] TernaryValue::from_int(s[i] as int)) is Some
}

/// The trits of a sequence of values that are all -1, 0 or +1.
pub open spec fn i8s_to_trits(s: Seq<i8>) -> Seq<TernaryValue> {
    Seq::new(s.len(), |i: int| TernaryValue::from_int(s[i] as int)->0)
}

/// Value `k` of `s` is the first that is not -1, 0 or +1.
pub open spec fn first_invalid_value(s: Seq<i8>, k: int) -> bool {
    &&& 0 <= k < s.len()
    &&& TernaryValue::from_int(s[k] as int) is None
    &&& forall|j: int| 0 <= j < k ==> (#[trigger] TernaryValue::from_int(s[j] as int)) is Some
}

/// The message of the error for a value that is no trit.
pub open spec fn invalid_value_message(v: i8) -> Seq<char> {
    "Invalid ternary value: "@ + decimal(v as int)
}

/// The oracle message that a protocol message becomes under message id `id`.
pub open spec fn oracle_of(m: ProtocolMessageView, id: u32) -> OracleMessageView {
    OracleMessageView {
        from_node: m.source,
        to_node: m.destination,
        data: trits_to_i8s(m.payload),
        msg_id: id,
    }
}

/// The protocol message that an oracle message (whose values are all trits)
/// becomes: it keeps the message id as its sequence number.
pub open spec fn protocol_of(o: OracleMessageView) -> ProtocolMessageView {
    ProtocolMessageView {
        source: o.from_node,
        destination: o.to_node,
        payload: i8s_to_trits(o.data),
        sequence: o.msg_id,
    }
}

// ── The bridge ────────────────────────────────────────────────────────────

/// Converts between ternary-protocol messages and oracle I2I messages,
/// numbering the messages it sends forward 1, 2, 3, ...
pub struct ProtocolBridge {
    next_sequence: u32,
}

impl ProtocolBridge {
    /// The number that the next message sent forward gets.
    pub closed spec fn next_id(&self) -> u32 {
        self.next_sequence
    }

    pub fn new() -> (b: ProtocolBridge)
        ensures
            b.next_id() == 1,
    {
        ProtocolBridge { next_sequence: 1 }
    }

    fn alloc_sequence(&mut self) -> (seq: u32)
        requires
            old(self).next_id() < u32::MAX,
        ensures
            seq == old(self).next_id(),
            final(self).next_id() == old(self).next_id() + 1,
    {
        let seq = self.next_sequence;
        self.next_sequence = seq + 1;
        seq
    }
}

impl Default for ProtocolBridge {
    fn default() -> (b: ProtocolBridge)
        ensures
            b.next_id() == 1,
    {
        Self::new()
    }
}

impl Bridge<ProtocolMessage, OracleMessage> for ProtocolBridge {
    type Error = BridgeError;

    /// The message ids run out after `u32::MAX - 1` messages.
    open spec fn accepts_forward(&self, msg: &ProtocolMessage) -> bool {
        self.next_id() < u32::MAX
    }

    /// Maps each trit to its i8 value and gives the message the next id.
    fn forward(&mut self, msg: &ProtocolMessage) -> (r: Result<OracleMessage, BridgeError>)
        ensures
            r matches Ok(o) && o@ == oracle_of(msg@, old(self).next_id()),
            final(self).next_id() == old(self).next_id() + 1,
    {
        let mut data: Vec<i8> = Vec::new();
        for i in 0..msg.payload.len()
            invariant
                data@.len() == i,
                forall|j: int| 0 <= j < i ==> data@[j] == msg.payload@[j].value(),
        {
            data.push(msg.payload[i].to_i8());
        }
        let mut oracle = OracleMessage::new(msg.source.as_str(), msg.destination.as_str(), data);
        oracle.msg_id = self.alloc_sequence();
        assert(oracle@.data =~= trits_to_i8s(msg@.payload));
        Ok(oracle)
    }

    /// Reads each value back as a trit; fails on the first value that is
    /// not -1, 0 or +1.
    fn backward(&self, msg: &OracleMessage) -> (r: Result<ProtocolMessage, BridgeError>)
        ensures
            r is Ok <==> all_ternary(msg.data@),
            r matches Ok(p) ==> p@ == protocol_of(msg@),
            r matches Err(e) ==> exists|k: int|
                first_invalid_value(msg.data@, k) && e.message@ == invalid_value_message(
                    msg.data@[k],
                ),
    {
        let mut payload: Vec<TernaryValue> = Vec::new();
        for i in 0..msg.data.len()
            invariant
                payload@.len() == i,
                forall|j: int|
                    0 <= j < i ==> (#[trigger] TernaryValue::from_int(msg.data@[j] as int)) == Some(
                        payload@[j],
                    ),
        {
            let v = msg.data[i];
            match TernaryValue::from_i8(v) {
                Some(t) => payload.push(t),
                None => {
                    let mut m = "Invalid ternary value: ".to_owned();
                    push_decimal(&mut m, v as i16);
                    assert(first_invalid_value(msg.data@, i as int));
                    return Err(BridgeError::from_message(m));
                },
            }
        }
        let mut proto = ProtocolMessage::new(msg.from_node.as_str(), msg.to_node.as_str(), payload);
        proto.sequence = msg.msg_id;
        assert(proto@.payload =~= i8s_to_trits(msg@.data));
        Ok(proto)
    }
}

/// Sending a protocol message forward and reading it back gives the same
/// source, destination and payload; its sequence number is the id it was
/// sent under.
pub proof fn lemma_protocol_roundtrip(m: ProtocolMessageView, id: u32)
    ensures
        all_ternary(oracle_of(m, id).data),
        protocol_of(oracle_of(m, id)) == (ProtocolMessageView { sequence: id, ..m }),
{
    let d = oracle_of(m, id).data;
    assert forall|i: int| 0 <= i < d.len() implies #[trigger] TernaryValue::from_int(d[i] as int)
        == Some(m.payload[i]) by {
        match m.payload[i] {
            TernaryValue::Negative => {},
            TernaryValue::Zero => {},
            TernaryValue::Positive => {},
        }
    }
    assert(protocol_of(oracle_of(m, id)).payload =~= m.payload);
}

/// Reading an oracle message whose values are all trits and sending it
/// forward again gives the same nodes and data; only the id is the new one.
pub proof fn lemma_oracle_roundtrip(o: OracleMessageView, id: u32)
    requires
        all_ternary(o.data),
    ensures
        oracle_of(protocol_of(o), id) == (OracleMessageView { msg_id: id, ..o }),
{
    let d = o.data;
    assert forall|i: int| 0 <= i < d.len() implies (#[trigger] TernaryValue::from_int(
        d[i] as int,
    ))->0.value() == d[i] by {
        assert(TernaryValue::from_int(d[i] as int) is Some);
    }
    assert(oracle_of(protocol_of(o), id).data =~= o.data);
}

/// Sending forward keeps the addressing as it is: the oracle message comes
/// from the protocol message's source and goes to its destination, carries
/// the given id, and holds the value (-1, 0 or +1) of each trit in order.
pub proof fn lemma_forward_addressing(m: ProtocolMessageView, id: u32, i: int)
    requires
        0 <= i < m.payload.len(),
    ensures
        oracle_of(m, id).from_node == m.source,
        oracle_of(m, id).to_node == m.destination,
        oracle_of(m, id).msg_id == id,
        oracle_of(m, id).data.len() == m.payload.len(),
        m.payload[i] == TernaryValue::Negative ==> oracle_of(m, id).data[i] == -1i8,
        m.payload[i] == TernaryValue::Zero ==> oracle_of(m, id).data[i] == 0i8,
        m.payload[i] == TernaryValue::Positive ==> oracle_of(m, id).data[i] == 1i8,
{
}

/// Reading back keeps the addressing as it is: the protocol message's source
/// is the oracle message's sender and its destination the receiver, its
/// sequence number is the message id, and each value -1, 0, +1 is read as
/// the trit it stands for, in order.
pub proof fn lemma_backward_addressing(o: OracleMessageView, i: int)
    requires
        0 <= i < o.data.len(),
        all_ternary(o.data),
    ensures
        protocol_of(o).source == o.from_node,
        protocol_of(o).destination == o.to_node,
        protocol_of(o).sequence == o.msg_id,
        protocol_of(o).payload.len() == o.data.len(),
        o.data[i] == -1i8 ==> protocol_of(o).payload[i] == TernaryValue::Negative,
        o.data[i] == 0i8 ==> protocol_of(o).payload[i] == TernaryValue::Zero,
        o.data[i] == 1i8 ==> protocol_of(o).payload[i] == TernaryValue::Positive,
{
}

/// A message's values can be read back exactly when each is -1, 0 or +1.
pub proof fn lemma_all_ternary_exactly(data: Seq<i8>)
    ensures
        all_ternary(data) <==> forall|i: int|
            0 <= i < data.len() ==> #[trigger] data[i] == -1i8 || data[i] == 0i8 || data[i] == 1i8,
{
    if all_ternary(data) {
        assert forall|i: int| 0 <= i < data.len() implies #[trigger] data[i] == -1i8 || data[i]
            == 0i8 || data[i] == 1i8 by {
            assert(TernaryValue::from_int(data[i] as int) is Some);
        }
    }
}

} // verus!
