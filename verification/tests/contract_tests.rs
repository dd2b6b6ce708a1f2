use ternary_bridge::{
    Bridge, BridgeError, BridgeRegistry, CodecBridge, LtmEntry, MemoryBridge, OracleMessage,
    ProtocolBridge, ProtocolMessage, RustSkill, SkillBridge, StmEntry, TernaryValue, TsSkill,
    WireFormat,
};

const ALL: [TernaryValue; 3] = [TernaryValue::Negative, TernaryValue::Zero, TernaryValue::Positive];
const FORMATS: [WireFormat; 3] = [WireFormat::BytePerTrit, WireFormat::Packed, WireFormat::Text];

fn err_message<T: std::fmt::Debug>(r: Result<T, BridgeError>) -> String {
    r.unwrap_err().message
}

#[test]
fn to_i8_values() {
    assert_eq!(TernaryValue::Negative.to_i8(), -1);
    assert_eq!(TernaryValue::Zero.to_i8(), 0);
    assert_eq!(TernaryValue::Positive.to_i8(), 1);
}

#[test]
fn from_i8_accepts_exactly_three_values() {
    for v in i8::MIN..=i8::MAX {
        let r = TernaryValue::from_i8(v);
        match v {
            -1 => assert_eq!(r, Some(TernaryValue::Negative)),
            0 => assert_eq!(r, Some(TernaryValue::Zero)),
            1 => assert_eq!(r, Some(TernaryValue::Positive)),
            _ => assert_eq!(r, None),
        }
    }
}

#[test]
fn encode_byte_per_trit_exact_bytes() {
    let bytes = CodecBridge::encode(&ALL, WireFormat::BytePerTrit).unwrap();
    assert_eq!(bytes, vec![0xFF, 0x00, 0x01]);
}

#[test]
fn encode_packed_exact_bytes() {
    let values = [
        TernaryValue::Negative,
        TernaryValue::Positive,
        TernaryValue::Zero,
        TernaryValue::Zero,
        TernaryValue::Positive,
        TernaryValue::Negative,
    ];
    let bytes = CodecBridge::encode(&values, WireFormat::Packed).unwrap();
    assert_eq!(bytes, vec![0x31, 0x00, 0x13]);
}

#[test]
fn encode_text_exact_bytes() {
    let bytes = CodecBridge::encode(&ALL, WireFormat::Text).unwrap();
    assert_eq!(bytes, b"T01".to_vec());
}

#[test]
fn encode_empty_in_every_format() {
    for f in FORMATS {
        assert_eq!(CodecBridge::encode(&[], f).unwrap(), Vec::<u8>::new());
        assert_eq!(CodecBridge::decode(&[], f).unwrap(), Vec::<TernaryValue>::new());
    }
}

#[test]
fn encode_packed_odd_message() {
    let r = CodecBridge::encode(&[TernaryValue::Zero], WireFormat::Packed);
    assert_eq!(err_message(r), "Packed format requires even number of trits");
}

#[test]
fn decode_byte_per_trit_error_names_signed_byte() {
    let r = CodecBridge::decode(&[0x01, 0xFE, 0x07], WireFormat::BytePerTrit);
    assert_eq!(err_message(r), "Invalid trit byte: -2");
    let r = CodecBridge::decode(&[0x80], WireFormat::BytePerTrit);
    assert_eq!(err_message(r), "Invalid trit byte: -128");
    let r = CodecBridge::decode(&[0x00, 0x7F], WireFormat::BytePerTrit);
    assert_eq!(err_message(r), "Invalid trit byte: 127");
}

#[test]
fn decode_packed_error_names_first_bad_nibble() {
    // high nibble 5 is bad and comes before the bad low nibble 7
    let r = CodecBridge::decode(&[0x57], WireFormat::Packed);
    assert_eq!(err_message(r), "Invalid packed trit nibble: 5");
    // high nibble 1 is fine, low nibble 2 is not
    let r = CodecBridge::decode(&[0x10, 0x12], WireFormat::Packed);
    assert_eq!(err_message(r), "Invalid packed trit nibble: 2");
    let r = CodecBridge::decode(&[0xF0], WireFormat::Packed);
    assert_eq!(err_message(r), "Invalid packed trit nibble: 15");
}

#[test]
fn decode_packed_reads_high_nibble_first() {
    let r = CodecBridge::decode(&[0x31, 0x03], WireFormat::Packed).unwrap();
    assert_eq!(
        r,
        vec![
            TernaryValue::Negative,
            TernaryValue::Positive,
            TernaryValue::Zero,
            TernaryValue::Negative
        ]
    );
}

#[test]
fn decode_text_error_quotes_character() {
    let r = CodecBridge::decode(b"T0X1", WireFormat::Text);
    assert_eq!(err_message(r), "Invalid text trit: 'X'");
    let r = CodecBridge::decode(&[0xE9], WireFormat::Text);
    assert_eq!(err_message(r), "Invalid text trit: '\u{e9}'");
}

#[test]
fn codec_roundtrip_every_format() {
    let mut values = Vec::new();
    for a in ALL {
        for b in ALL {
            values.push(a);
            values.push(b);
        }
    }
    for f in FORMATS {
        let bytes = CodecBridge::encode(&values, f).unwrap();
        assert_eq!(CodecBridge::decode(&bytes, f).unwrap(), values);
    }
}

#[test]
fn codec_decode_encode_gives_bytes_back() {
    let cases: [(WireFormat, Vec<u8>); 3] = [
        (WireFormat::BytePerTrit, vec![0x01, 0xFF, 0x00, 0x00]),
        (WireFormat::Packed, vec![0x33, 0x01, 0x10, 0x00]),
        (WireFormat::Text, b"1T0T".to_vec()),
    ];
    for (f, bytes) in cases {
        let values = CodecBridge::decode(&bytes, f).unwrap();
        assert_eq!(CodecBridge::encode(&values, f).unwrap(), bytes);
    }
}

#[test]
fn codec_bridge_backward_rejects_bad_byte() {
    let bridge = CodecBridge;
    let r = bridge.backward(&vec![0x02]);
    assert_eq!(err_message(r), "Invalid trit byte: 2");
}

#[test]
fn protocol_forward_numbers_messages() {
    let mut bridge = ProtocolBridge::default();
    let msg = ProtocolMessage::new("n1", "n2", vec![TernaryValue::Zero]);
    for expected in 1..=5u32 {
        let o = bridge.forward(&msg).unwrap();
        assert_eq!(o.msg_id, expected);
        assert_eq!(o.from_node, "n1");
        assert_eq!(o.to_node, "n2");
        assert_eq!(o.data, vec![0]);
    }
}

#[test]
fn protocol_new_messages_start_at_zero() {
    let p = ProtocolMessage::new("s", "d", vec![]);
    assert_eq!(p.sequence, 0);
    assert_eq!(p.source, "s");
    assert_eq!(p.destination, "d");
    let o = OracleMessage::new("f", "t", vec![1]);
    assert_eq!(o.msg_id, 0);
    assert_eq!(o.from_node, "f");
    assert_eq!(o.to_node, "t");
    assert_eq!(o.data, vec![1]);
}

#[test]
fn protocol_backward_keeps_id_as_sequence() {
    let bridge = ProtocolBridge::new();
    let mut o = OracleMessage::new("x", "y", vec![-1, -1]);
    o.msg_id = 77;
    let p = bridge.backward(&o).unwrap();
    assert_eq!(p.sequence, 77);
    assert_eq!(p.source, "x");
    assert_eq!(p.destination, "y");
    assert_eq!(p.payload, vec![TernaryValue::Negative, TernaryValue::Negative]);
}

#[test]
fn protocol_backward_error_names_first_bad_value() {
    let bridge = ProtocolBridge::new();
    let o = OracleMessage::new("a", "b", vec![1, 5, -7]);
    assert_eq!(err_message(bridge.backward(&o)), "Invalid ternary value: 5");
    let o = OracleMessage::new("a", "b", vec![-128]);
    assert_eq!(err_message(bridge.backward(&o)), "Invalid ternary value: -128");
    let o = OracleMessage::new("a", "b", vec![0, 100]);
    assert_eq!(err_message(bridge.backward(&o)), "Invalid ternary value: 100");
}

#[test]
fn oracle_roundtrip_keeps_data() {
    let mut bridge = ProtocolBridge::new();
    let o = OracleMessage::new("p", "q", vec![1, -1, 0, 0]);
    let p = bridge.backward(&o).unwrap();
    let again = bridge.forward(&p).unwrap();
    assert_eq!(again.data, o.data);
    assert_eq!(again.from_node, o.from_node);
    assert_eq!(again.to_node, o.to_node);
    assert_eq!(again.msg_id, 1);
}

#[test]
fn memory_repromote_resets_metadata() {
    let mut bridge = MemoryBridge;
    let ltm = LtmEntry {
        key: "k".into(),
        value: vec![TernaryValue::Positive, TernaryValue::Negative],
        access_count: 9,
        weight: 4,
    };
    let stm = bridge.backward(&ltm).unwrap();
    assert_eq!(stm.value, ltm.value);
    let again = bridge.forward(&stm).unwrap();
    assert_eq!(
        again,
        LtmEntry { key: "k".into(), value: ltm.value.clone(), access_count: 0, weight: 1 }
    );
}

#[test]
fn memory_roundtrip_loses_only_creation_tick() {
    let mut bridge = MemoryBridge;
    let stm = StmEntry { key: "q".into(), value: vec![TernaryValue::Negative], created_at: 7 };
    let ltm = bridge.forward(&stm).unwrap();
    let back = bridge.backward(&ltm).unwrap();
    assert_eq!(back, StmEntry { created_at: 0, ..stm });
}

#[test]
fn skill_forward_replaces_every_dash() {
    let mut bridge = SkillBridge;
    let ts = TsSkill {
        name: "a-b--c-".into(),
        inputs: vec![],
        outputs: vec!["x".into(), "y".into()],
        source: "s".into(),
    };
    let rs = bridge.forward(&ts).unwrap();
    assert_eq!(rs.rust_module_path, "construct::skills::a_b__c_");
    assert_eq!(rs.name, "a-b--c-");
    assert_eq!(rs.returns, vec!["x", "y"]);
    assert!(rs.params.is_empty());
}

#[test]
fn skill_backward_source_path_keeps_dashes() {
    let bridge = SkillBridge;
    let rs = RustSkill {
        name: "detect-anomaly".into(),
        params: vec!["p".into()],
        returns: vec![],
        rust_module_path: "whatever".into(),
    };
    let ts = bridge.backward(&rs).unwrap();
    assert_eq!(ts.source, "equipment/skills/detect-anomaly.ts");
    assert_eq!(ts.inputs, vec!["p"]);
}

#[test]
fn rust_skill_roundtrip_rebuilds_module_path() {
    let mut bridge = SkillBridge;
    let rs = RustSkill {
        name: "my-skill".into(),
        params: vec!["a".into()],
        returns: vec!["b".into()],
        rust_module_path: "old::path".into(),
    };
    let ts = bridge.backward(&rs).unwrap();
    let again = bridge.forward(&ts).unwrap();
    assert_eq!(again.rust_module_path, "construct::skills::my_skill");
    assert_eq!(again.params, rs.params);
    assert_eq!(again.returns, rs.returns);
}

#[test]
fn registry_register_overwrites() {
    let mut reg = BridgeRegistry::default();
    reg.register("p", "First");
    reg.register("p", "Second");
    assert_eq!(reg.get("p"), Some("Second"));
    assert_eq!(reg.list(), vec![("p", "Second")]);
}

#[test]
fn registry_list_holds_every_entry_once() {
    let mut reg = BridgeRegistry::new();
    reg.register("a", "TypeA");
    reg.register("b", "TypeB");
    reg.register("c", "TypeC");
    assert!(reg.remove("b"));
    let mut list = reg.list();
    list.sort();
    assert_eq!(list, vec![("a", "TypeA"), ("c", "TypeC")]);
    assert_eq!(reg.get("b"), None);
    assert_eq!(reg.get("c"), Some("TypeC"));
}

#[test]
fn registry_remove_missing_is_false() {
    let mut reg = BridgeRegistry::new();
    assert!(!reg.remove("nothing"));
    assert!(reg.list().is_empty());
}

#[test]
fn bridge_error_new_and_text() {
    let e = BridgeError::new("");
    assert_eq!(e.message, "");
    assert_eq!(e.to_string(), "BridgeError: ");
    let e = BridgeError::new("x y");
    assert_eq!(e.message, "x y");
    assert_eq!(e.to_string(), "BridgeError: x y");
}
