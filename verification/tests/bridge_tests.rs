use ternary_bridge::{
    Bridge, BridgeError, BridgeRegistry, CodecBridge, LtmEntry, MemoryBridge, OracleMessage,
    ProtocolBridge, ProtocolMessage, RustSkill, SkillBridge, StmEntry, TernaryValue, TsSkill,
    WireFormat,
};

#[test]
fn test_ternary_value_roundtrip() {
    for v in &[TernaryValue::Negative, TernaryValue::Zero, TernaryValue::Positive] {
        assert_eq!(TernaryValue::from_i8(v.to_i8()).unwrap(), *v);
    }
}

#[test]
fn test_ternary_invalid_i8() {
    assert!(TernaryValue::from_i8(2).is_none());
    assert!(TernaryValue::from_i8(-2).is_none());
}

#[test]
fn test_protocol_bridge_forward() {
    let mut bridge = ProtocolBridge::new();
    let proto = ProtocolMessage::new(
        "node-a",
        "node-b",
        vec![TernaryValue::Positive, TernaryValue::Zero, TernaryValue::Negative],
    );
    let oracle = bridge.forward(&proto).unwrap();
    assert_eq!(oracle.from_node, "node-a");
    assert_eq!(oracle.data, vec![1, 0, -1]);
    assert_eq!(oracle.msg_id, 1);
}

#[test]
fn test_protocol_bridge_backward() {
    let bridge = ProtocolBridge::new();
    let oracle = OracleMessage::new("x", "y", vec![1, 0, -1]);
    let proto = bridge.backward(&oracle).unwrap();
    assert_eq!(
        proto.payload,
        vec![TernaryValue::Positive, TernaryValue::Zero, TernaryValue::Negative]
    );
    assert_eq!(proto.sequence, 0);
}

#[test]
fn test_protocol_bridge_roundtrip() {
    let mut bridge = ProtocolBridge::new();
    let proto = ProtocolMessage::new(
        "a",
        "b",
        vec![TernaryValue::Negative, TernaryValue::Zero, TernaryValue::Positive],
    );
    let oracle = bridge.forward(&proto).unwrap();
    let back = bridge.backward(&oracle).unwrap();
    assert_eq!(back.payload, proto.payload);
    assert_eq!(back.source, proto.source);
    assert_eq!(back.destination, proto.destination);
}

#[test]
fn test_protocol_bridge_invalid_backward() {
    let bridge = ProtocolBridge::new();
    let oracle = OracleMessage::new("a", "b", vec![5, 0]);
    assert!(bridge.backward(&oracle).is_err());
}

#[test]
fn test_codec_byte_per_trit() {
    let values = vec![TernaryValue::Negative, TernaryValue::Zero, TernaryValue::Positive];
    let encoded = CodecBridge::encode(&values, WireFormat::BytePerTrit).unwrap();
    let decoded = CodecBridge::decode(&encoded, WireFormat::BytePerTrit).unwrap();
    assert_eq!(decoded, values);
}

#[test]
fn test_codec_packed() {
    let values = vec![
        TernaryValue::Negative,
        TernaryValue::Positive,
        TernaryValue::Zero,
        TernaryValue::Zero,
    ];
    let encoded = CodecBridge::encode(&values, WireFormat::Packed).unwrap();
    assert_eq!(encoded.len(), 2); // 4 trits = 2 bytes packed
    let decoded = CodecBridge::decode(&encoded, WireFormat::Packed).unwrap();
    assert_eq!(decoded, values);
}

#[test]
fn test_codec_packed_odd_fails() {
    let values = vec![TernaryValue::Positive, TernaryValue::Zero, TernaryValue::Negative];
    assert!(CodecBridge::encode(&values, WireFormat::Packed).is_err());
}

#[test]
fn test_codec_text() {
    let values = vec![TernaryValue::Negative, TernaryValue::Zero, TernaryValue::Positive];
    let encoded = CodecBridge::encode(&values, WireFormat::Text).unwrap();
    assert_eq!(&String::from_utf8_lossy(&encoded), "T01");
    let decoded = CodecBridge::decode(&encoded, WireFormat::Text).unwrap();
    assert_eq!(decoded, values);
}

#[test]
fn test_codec_text_invalid_char() {
    assert!(CodecBridge::decode(b"X", WireFormat::Text).is_err());
}

#[test]
fn test_memory_bridge_forward() {
    let mut bridge = MemoryBridge;
    let stm = StmEntry {
        key: "temp-reading".into(),
        value: vec![TernaryValue::Positive],
        created_at: 100,
    };
    let ltm = bridge.forward(&stm).unwrap();
    assert_eq!(ltm.key, "temp-reading");
    assert_eq!(ltm.access_count, 0);
    assert_eq!(ltm.weight, 1);
}

#[test]
fn test_memory_bridge_backward() {
    let bridge = MemoryBridge;
    let ltm = LtmEntry {
        key: "pattern".into(),
        value: vec![TernaryValue::Negative],
        access_count: 42,
        weight: 10,
    };
    let stm = bridge.backward(&ltm).unwrap();
    assert_eq!(stm.key, "pattern");
    assert_eq!(stm.created_at, 0); // STM doesn't preserve LTM metadata
}

#[test]
fn test_memory_bridge_roundtrip() {
    let mut bridge = MemoryBridge;
    let stm = StmEntry {
        key: "k".into(),
        value: vec![TernaryValue::Zero],
        created_at: 50,
    };
    let ltm = bridge.forward(&stm).unwrap();
    let back = bridge.backward(&ltm).unwrap();
    assert_eq!(back.key, stm.key);
    assert_eq!(back.value, stm.value);
}

#[test]
fn test_skill_bridge_forward() {
    let mut bridge = SkillBridge;
    let ts = TsSkill {
        name: "detect-anomaly".into(),
        inputs: vec!["sensor-data".into()],
        outputs: vec!["is-anomaly".into()],
        source: "equipment/skills/detect-anomaly.ts".into(),
    };
    let rs = bridge.forward(&ts).unwrap();
    assert_eq!(rs.name, "detect-anomaly");
    assert_eq!(rs.rust_module_path, "construct::skills::detect_anomaly");
    assert_eq!(rs.params, vec!["sensor-data"]);
}

#[test]
fn test_skill_bridge_backward() {
    let bridge = SkillBridge;
    let rs = RustSkill {
        name: "classify".into(),
        params: vec!["input".into()],
        returns: vec!["label".into()],
        rust_module_path: "construct::skills::classify".into(),
    };
    let ts = bridge.backward(&rs).unwrap();
    assert_eq!(ts.name, "classify");
    assert_eq!(ts.source, "equipment/skills/classify.ts");
}

#[test]
fn test_skill_bridge_roundtrip() {
    let mut bridge = SkillBridge;
    let ts = TsSkill {
        name: "transform".into(),
        inputs: vec!["data".into()],
        outputs: vec!["result".into()],
        source: "".into(),
    };
    let rs = bridge.forward(&ts).unwrap();
    let back = bridge.backward(&rs).unwrap();
    assert_eq!(back.name, ts.name);
    assert_eq!(back.inputs, ts.inputs);
    assert_eq!(back.outputs, ts.outputs);
}

#[test]
fn test_bridge_registry_register_and_get() {
    let mut reg = BridgeRegistry::new();
    reg.register("proto", "ProtocolBridge");
    assert_eq!(reg.get("proto"), Some("ProtocolBridge"));
    assert_eq!(reg.get("missing"), None);
}

#[test]
fn test_bridge_registry_remove() {
    let mut reg = BridgeRegistry::new();
    reg.register("codec", "CodecBridge");
    assert!(reg.remove("codec"));
    assert!(!reg.remove("codec"));
}

#[test]
fn test_bridge_registry_list() {
    let mut reg = BridgeRegistry::new();
    reg.register("a", "TypeA");
    reg.register("b", "TypeB");
    let list = reg.list();
    assert_eq!(list.len(), 2);
}

#[test]
fn test_codec_default_impl() {
    let mut bridge = CodecBridge;
    let values = vec![TernaryValue::Positive, TernaryValue::Zero];
    let encoded = bridge.forward(&values).unwrap();
    let decoded = bridge.backward(&encoded).unwrap();
    assert_eq!(decoded, values);
}

#[test]
fn test_bridge_error_display() {
    let err = BridgeError::new("test error");
    assert_eq!(err.to_string(), "BridgeError: test error");
}
