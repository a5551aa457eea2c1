use telemetry_ingest::db::{DeviceHealth, DeviceLog, DeviceState, SensorReading};
use telemetry_ingest::instant::Timestamp;
use telemetry_ingest::json::{parse_json, Json, Number};
use telemetry_ingest::parser::{
    classify_decoded, classify_json, extract_device_id, extract_timestamp, parse_device_log,
    parse_device_state_and_health, parse_message, parse_message_at, parse_plain_text_log,
    parse_sensor_readings, ParsedMessage,
};

const NOW: Timestamp = Timestamp { secs: 1_750_000_000, nanos: 123 };

fn doc(text: &str) -> Json {
    parse_json(text).expect("valid JSON")
}

fn states(records: &[ParsedMessage]) -> Vec<&DeviceState> {
    let mut out = Vec::new();
    for r in records {
        if let ParsedMessage::DeviceState(s) = r {
            out.push(s);
        }
    }
    out
}

fn healths(records: &[ParsedMessage]) -> Vec<&DeviceHealth> {
    let mut out = Vec::new();
    for r in records {
        if let ParsedMessage::DeviceHealth(s) = r {
            out.push(s);
        }
    }
    out
}

fn logs(records: &[ParsedMessage]) -> Vec<&DeviceLog> {
    let mut out = Vec::new();
    for r in records {
        if let ParsedMessage::DeviceLog(s) = r {
            out.push(s);
        }
    }
    out
}

fn readings(records: &[ParsedMessage]) -> Vec<&SensorReading> {
    let mut out = Vec::new();
    for r in records {
        if let ParsedMessage::SensorReading(s) = r {
            out.push(s);
        }
    }
    out
}

#[test]
fn first_record_is_the_raw_capture() {
    let payloads: [&str; 4] = ["hello", "{\"value\": 1}", "", "{\"rssi\": -1}"];
    for p in payloads {
        let records = parse_message("a/b", p.as_bytes());
        assert!(!records.is_empty());
        match &records[0] {
            ParsedMessage::SocketRead(raw) => {
                assert_eq!(raw.payload, p);
                assert_eq!(raw.topic, "a/b");
            }
            other => panic!("first record is {:?}", other),
        }
        let mut raws = 0;
        for r in &records {
            if matches!(r, ParsedMessage::SocketRead(_)) {
                raws += 1;
            }
        }
        assert_eq!(raws, 1);
    }
}

#[test]
fn raw_capture_keeps_non_ascii_text() {
    let text = "température élevée ✓";
    let records = parse_message_at("a/b", text.as_bytes(), NOW);
    match &records[0] {
        ParsedMessage::SocketRead(raw) => {
            assert_eq!(raw.payload, text);
            assert_eq!(raw.timestamp, NOW);
        }
        other => panic!("first record is {:?}", other),
    }
}

#[test]
fn non_utf8_payload_gives_no_record() {
    assert!(parse_message("a/b", &[0xff, 0xfe, 0x00]).is_empty());
    assert!(parse_message("a/b", &[b'{', 0xc3]).is_empty());
    assert!(parse_message_at("a/b", &[0x80], NOW).is_empty());
}

#[test]
fn classification_is_repeatable_with_embedded_timestamp() {
    let payload = b"{\"value\": 21.5, \"level\":\"INFO\",\"message\":\"hi\",\"ts\":1700000000}";
    let later = Timestamp { secs: NOW.secs + 60, nanos: 0 };
    let a = parse_message_at("t/dev00000001", payload, NOW);
    let b = parse_message_at("t/dev00000001", payload, later);
    assert_eq!(a.len(), b.len());
    assert!(a.len() > 1);
    assert_eq!(a[1..], b[1..]);
    let c = parse_message_at("t/dev00000001", payload, NOW);
    assert_eq!(a, c);
}

#[test]
fn classification_differs_only_in_fallback_instants() {
    let later = Timestamp { secs: NOW.secs + 60, nanos: 0 };
    let a = parse_message_at("t/dev1", b"plain words", NOW);
    let b = parse_message_at("t/dev1", b"plain words", later);
    assert_eq!(a.len(), 2);
    assert_eq!(b.len(), 2);
    match (&a[1], &b[1]) {
        (ParsedMessage::DeviceLog(x), ParsedMessage::DeviceLog(y)) => {
            assert_eq!(x.device_id, y.device_id);
            assert_eq!(x.level, y.level);
            assert_eq!(x.message, y.message);
            assert_eq!(x.topic, y.topic);
            assert_eq!(x.timestamp, NOW);
            assert_eq!(y.timestamp, later);
        }
        other => panic!("unexpected records {:?}", other),
    }
}

#[test]
fn device_id_prefers_device_id_member() {
    let json = doc("{\"device_id\":\"A\",\"deviceId\":\"B\"}");
    assert_eq!(extract_device_id("telemetry/device42/temp", &json), "A");
    let json = doc("{\"deviceId\":\"B\",\"device\":\"C\"}");
    assert_eq!(extract_device_id("telemetry/device42/temp", &json), "B");
    let json = doc("{\"device\":\"C\"}");
    assert_eq!(extract_device_id("telemetry/device42/temp", &json), "C");
}

#[test]
fn device_id_member_that_is_no_string_is_passed_over() {
    let json = doc("{\"device_id\":7,\"deviceId\":\"B\"}");
    assert_eq!(extract_device_id("tm/device42/temp", &json), "device42");
}

#[test]
fn device_id_falls_back_to_topic() {
    let json = doc("{\"x\":1}");
    assert_eq!(extract_device_id("tm/device42/temp", &json), "device42");
    assert_eq!(extract_device_id("device42", &json), "device42");
    assert_eq!(extract_device_id("t/dev00000001", &json), "dev00000001");
    assert_eq!(extract_device_id("a/12345678/b", &json), "12345678");
    assert_eq!(extract_device_id("a/1234567/b", &json), "unknown");
    assert_eq!(extract_device_id("telemetry/x", &json), "telemetry");
}

#[test]
fn device_id_takes_the_first_segment_that_qualifies() {
    let json = doc("{}");
    assert_eq!(extract_device_id("telemetry/device42/temp", &json), "telemetry");
    assert_eq!(extract_device_id("abc/12345678/device1", &json), "12345678");
    assert_eq!(extract_device_id("abc/devic/device1", &json), "device1");
}

#[test]
fn device_id_counts_characters_of_a_segment() {
    let json = doc("[]");
    assert_eq!(extract_device_id("a/éééééééé", &json), "éééééééé");
    assert_eq!(extract_device_id("a/éééé", &json), "unknown");
}

#[test]
fn device_id_falls_back_to_unknown() {
    let json = doc("{}");
    assert_eq!(extract_device_id("a/b", &json), "unknown");
    assert_eq!(extract_device_id("", &json), "unknown");
    assert_eq!(extract_device_id("//", &json), "unknown");
}

#[test]
fn timestamp_prefers_the_timestamp_member() {
    let json = doc("{\"timestamp\":\"2024-01-01T00:00:00Z\",\"ts\":1700000000}");
    assert_eq!(extract_timestamp(&json, NOW), Timestamp { secs: 1_704_067_200, nanos: 0 });
}

#[test]
fn timestamp_is_moved_to_utc() {
    let json = doc("{\"timestamp\":\"2024-01-01T02:00:00.5+02:00\"}");
    assert_eq!(
        extract_timestamp(&json, NOW),
        Timestamp { secs: 1_704_067_200, nanos: 500_000_000 }
    );
}

#[test]
fn timestamp_reads_epoch_seconds() {
    let json = doc("{\"ts\":1700000000}");
    assert_eq!(extract_timestamp(&json, NOW), Timestamp { secs: 1_700_000_000, nanos: 0 });
    let json = doc("{\"timestamp\":-5}");
    assert_eq!(extract_timestamp(&json, NOW), Timestamp { secs: -5, nanos: 0 });
}

#[test]
fn timestamp_falls_back_to_the_classification_instant() {
    assert_eq!(extract_timestamp(&doc("{}"), NOW), NOW);
    assert_eq!(extract_timestamp(&doc("{\"timestamp\":\"yesterday\"}"), NOW), NOW);
    assert_eq!(extract_timestamp(&doc("{\"timestamp\":1.5}"), NOW), NOW);
    assert_eq!(extract_timestamp(&doc("{\"timestamp\":9223372036854775807}"), NOW), NOW);
    assert_eq!(extract_timestamp(&doc("{\"timestamp\":null,\"ts\":5}"), NOW), NOW);
    assert_eq!(extract_timestamp(&doc("17"), NOW), NOW);
}

#[test]
fn state_fields_suppress_log_and_readings() {
    let payload = b"{\"rssi\": -40, \"level\":\"INFO\",\"message\":\"hi\"}";
    let records = parse_message_at("t/dev00000001", payload, NOW);
    assert_eq!(records.len(), 2);
    assert_eq!(states(&records).len(), 1);
    assert!(logs(&records).is_empty());
    assert!(readings(&records).is_empty());
    assert!(healths(&records).is_empty());
    let state = states(&records)[0];
    assert_eq!(state.device_id, "dev00000001");
    assert_eq!(state.topic, "t/dev00000001");
    assert_eq!(state.rssi, Some(-40));
    assert_eq!(state.main_state, None);
    assert_eq!(state.secondary_state, None);
    assert_eq!(state.alerts, None);
    assert_eq!(state.timestamp, NOW);
}

#[test]
fn value_and_log_members_give_readings_and_a_log() {
    let payload = b"{\"value\": 21.5, \"level\":\"INFO\",\"message\":\"hi\"}";
    let records = parse_message_at("t/dev00000001", payload, NOW);
    assert!(states(&records).is_empty());
    let found = readings(&records);
    let mut own = 0;
    for r in &found {
        assert_eq!(r.value_bits, 21.5f64.to_bits());
        assert_eq!(r.device_id, "dev00000001");
        if r.topic == "t/dev00000001" {
            own += 1;
        }
    }
    assert_eq!(own, 1);
    assert_eq!(found.len(), 2);
    assert_eq!(found[0].topic, "t/dev00000001");
    assert_eq!(found[1].topic, "t/dev00000001/value");
    let found = logs(&records);
    assert_eq!(found.len(), 1);
    assert_eq!(found[0].level, "INFO");
    assert_eq!(found[0].message, "hi");
    assert_eq!(found[0].device_id, "dev00000001");
    assert!(matches!(records[records.len() - 1], ParsedMessage::DeviceLog(_)));
}

#[test]
fn flat_numeric_object_gives_one_reading_per_number() {
    let payload =
        b"{\"temperature\":25.5,\"humidity\":60.0,\"timestamp\":\"2024-01-01T00:00:00Z\"}";
    let records = parse_message_at("room/dev1", payload, NOW);
    let found = readings(&records);
    assert_eq!(found.len(), 2);
    let mut topics: Vec<(String, u64)> = Vec::new();
    for r in &found {
        assert_eq!(r.timestamp, Timestamp { secs: 1_704_067_200, nanos: 0 });
        assert_eq!(r.device_id, "unknown");
        topics.push((r.topic.clone(), r.value_bits));
    }
    topics.sort();
    assert_eq!(
        topics,
        vec![
            ("room/dev1/humidity".to_string(), 60.0f64.to_bits()),
            ("room/dev1/temperature".to_string(), 25.5f64.to_bits()),
        ]
    );
    assert_eq!(records.len(), 3);
}

#[test]
fn flat_object_skips_timestamp_and_device_id_numbers() {
    let json = doc("{\"timestamp\":1700000000,\"device_id\":5,\"ts\":3,\"n\":-2}");
    let found = parse_sensor_readings("room/dev1", &json, NOW);
    assert_eq!(found.len(), 2);
    assert_eq!(found[0].topic, "room/dev1/n");
    assert_eq!(found[0].value_bits, (-2.0f64).to_bits());
    assert_eq!(found[1].topic, "room/dev1/ts");
    assert_eq!(found[1].value_bits, 3.0f64.to_bits());
    assert_eq!(found[0].timestamp, Timestamp { secs: 1_700_000_000, nanos: 0 });
}

#[test]
fn sensors_array_gives_one_reading_per_entry() {
    let json = doc(
        "{\"device\":\"d9\",\"sensors\":[{\"name\":\"t\",\"value\":1.25},{\"name\":\"skipped\"},{\"value\":3},{\"name\":\"h\",\"value\":40}]}",
    );
    let found = parse_sensor_readings("site", &json, NOW);
    assert_eq!(found.len(), 2);
    assert_eq!(
        found[0],
        SensorReading {
            device_id: "d9".to_string(),
            topic: "site/t".to_string(),
            value_bits: 1.25f64.to_bits(),
            timestamp: NOW,
        }
    );
    assert_eq!(found[1].topic, "site/h");
    assert_eq!(found[1].value_bits, 40.0f64.to_bits());
}

#[test]
fn no_shape_gives_no_reading() {
    assert!(parse_sensor_readings("a/b", &doc("{\"value\":\"warm\"}"), NOW).is_empty());
    assert!(parse_sensor_readings("a/b", &doc("[1,2,3]"), NOW).is_empty());
    assert!(parse_sensor_readings("a/b", &doc("5"), NOW).is_empty());
    assert!(parse_sensor_readings("a/b", &doc("{\"sensors\":{\"name\":\"x\"}}"), NOW).is_empty());
}

#[test]
fn plain_text_gives_one_log() {
    let records = parse_message_at("diagnostics/dev1/logs", b"connection lost", NOW);
    assert_eq!(records.len(), 2);
    match &records[1] {
        ParsedMessage::DeviceLog(log) => {
            assert_eq!(log.level, "DEBUG");
            assert_eq!(log.device_id, "dev1");
            assert_eq!(log.message, "connection lost");
            assert_eq!(log.topic, "diagnostics/dev1/logs");
            assert_eq!(log.timestamp, NOW);
        }
        other => panic!("second record is {:?}", other),
    }
}

#[test]
fn plain_text_levels_follow_their_order() {
    assert_eq!(parse_plain_text_log("x/dev1", "an Error and a warning", NOW).level, "ERROR");
    assert_eq!(parse_plain_text_log("x/errors", "fine", NOW).level, "ERROR");
    assert_eq!(parse_plain_text_log("debug/dev1", "WARNING: hot", NOW).level, "WARN");
    assert_eq!(parse_plain_text_log("x/warnings", "fine", NOW).level, "WARN");
    assert_eq!(parse_plain_text_log("debug/dev1", "fine", NOW).level, "DEBUG");
    assert_eq!(parse_plain_text_log("x/diagnostics", "fine", NOW).level, "DEBUG");
    assert_eq!(parse_plain_text_log("x/dev1", "debug diagnostics", NOW).level, "INFO");
    assert_eq!(parse_plain_text_log("x/dev1", "erro r", NOW).level, "INFO");
    assert_eq!(parse_plain_text_log("", "", NOW).level, "INFO");
    assert_eq!(parse_plain_text_log("x", "terror", NOW).level, "ERROR");
    assert_eq!(parse_plain_text_log("x/ERRORS", "fine", NOW).level, "ERROR");
    assert_eq!(parse_plain_text_log("x/Warnings", "fine", NOW).level, "WARN");
    assert_eq!(parse_plain_text_log("Diagnostics/dev1", "fine", NOW).level, "DEBUG");
}

#[test]
fn plain_text_device_id_skips_reserved_and_empty_segments() {
    assert_eq!(parse_plain_text_log("/debug//logs/dev7/x", "m", NOW).device_id, "dev7");
    assert_eq!(parse_plain_text_log("diagnostics/debug/logs", "m", NOW).device_id, "unknown");
    assert_eq!(parse_plain_text_log("", "m", NOW).device_id, "unknown");
    assert_eq!(parse_plain_text_log("debugger/logs", "m", NOW).device_id, "debugger");
    assert_eq!(parse_plain_text_log("a", "m", NOW).device_id, "a");
}

#[test]
fn health_string_is_read_as_a_document() {
    let payload = b"{\"rssi\":1,\"health\":\"{\\\"general\\\":{\\\"wifiSsid\\\":\\\"net\\\"}}\"}";
    let records = parse_message_at("t/dev00000001", payload, NOW);
    assert_eq!(records.len(), 3);
    assert!(matches!(records[1], ParsedMessage::DeviceState(_)));
    match &records[2] {
        ParsedMessage::DeviceHealth(h) => {
            assert_eq!(h.wifi_ssid, Some("net".to_string()));
            assert_eq!(h.device_id, "dev00000001");
            assert_eq!(h.topic, "t/dev00000001");
            assert_eq!(h.free_heap_size, None);
            assert_eq!(h.last_reset_reason, None);
            assert_eq!(h.timestamp, NOW);
        }
        other => panic!("third record is {:?}", other),
    }
}

#[test]
fn health_object_maps_every_field() {
    let json = doc(
        "{\"main_state\":1,\"secondary_state\":0,\"alerts\":{\"a\":[1,null,true]},\"rssi\":-29,\"ts\":1700000000,\"health\":{\"general\":{\"wifiSsid\":\"GL\",\"freeHeapSize\":57940,\"minHeapSize\":41000,\"unexpectedResetCounter\":3,\"lastResetReason\":\"POWERON\",\"wifiConnectCounter\":4,\"cloudConnectCounter\":5,\"lastWifiConnectionTs\":1699999999,\"lastCloudConnectionTs\":\"soon\"}}}",
    );
    let (state, health) =
        parse_device_state_and_health("t/device1", &json, NOW).expect("state fields present");
    let at = Timestamp { secs: 1_700_000_000, nanos: 0 };
    assert_eq!(state.main_state, Some(1));
    assert_eq!(state.secondary_state, Some(0));
    assert_eq!(state.rssi, Some(-29));
    assert_eq!(state.timestamp, at);
    assert_eq!(state.alerts, Some(doc("{\"a\":[1,null,true]}")));
    assert_eq!(
        health,
        Some(DeviceHealth {
            device_id: "device1".to_string(),
            topic: "t/device1".to_string(),
            wifi_ssid: Some("GL".to_string()),
            free_heap_size: Some(57940),
            min_heap_size: Some(41000),
            unexpected_reset_counter: Some(3),
            last_reset_reason: Some("POWERON".to_string()),
            wifi_connect_counter: Some(4),
            cloud_connect_counter: Some(5),
            last_wifi_connection_ts: Some(1_699_999_999),
            last_cloud_connection_ts: None,
            timestamp: at,
        })
    );
}

#[test]
fn health_without_general_gives_state_alone() {
    for payload in [
        "{\"rssi\":1,\"health\":\"not json\"}",
        "{\"rssi\":1,\"health\":\"{\\\"other\\\":1}\"}",
        "{\"rssi\":1,\"health\":{\"other\":1}}",
        "{\"rssi\":1,\"health\":7}",
        "{\"alerts\":null}",
    ] {
        let records = parse_message_at("t/dev00000001", payload.as_bytes(), NOW);
        assert_eq!(records.len(), 2, "{}", payload);
        assert!(matches!(records[1], ParsedMessage::DeviceState(_)));
    }
}

#[test]
fn health_is_never_without_state() {
    let payload = b"{\"health\":{\"general\":{\"wifiSsid\":\"net\"}}}";
    let records = parse_message_at("t/dev00000001", payload, NOW);
    assert!(healths(&records).is_empty());
    assert!(states(&records).is_empty());
    assert!(parse_device_state_and_health("t", &doc("{\"health\":{}}"), NOW).is_none());
}

#[test]
fn state_integers_keep_their_low_32_bits() {
    let json = doc("{\"main_state\":4294967297,\"secondary_state\":-2147483649,\"rssi\":1.5}");
    let (state, _) = parse_device_state_and_health("t", &json, NOW).expect("state");
    assert_eq!(state.main_state, Some(1));
    assert_eq!(state.secondary_state, Some(2147483647));
    assert_eq!(state.rssi, None);
}

#[test]
fn log_members_are_taken_by_priority() {
    let json = doc("{\"severity\":\"WARN\",\"level\":\"ERROR\",\"text\":\"c\",\"msg\":\"b\"}");
    let log = parse_device_log("t/dev00000001", &json, NOW).expect("log");
    assert_eq!(log.level, "ERROR");
    assert_eq!(log.message, "b");
    let json = doc("{\"severity\":\"WARN\",\"text\":\"c\",\"ts\":1700000000}");
    let log = parse_device_log("t/dev00000001", &json, NOW).expect("log");
    assert_eq!(
        log,
        DeviceLog {
            device_id: "dev00000001".to_string(),
            level: "WARN".to_string(),
            message: "c".to_string(),
            topic: "t/dev00000001".to_string(),
            timestamp: Timestamp { secs: 1_700_000_000, nanos: 0 },
        }
    );
}

#[test]
fn log_needs_level_and_message() {
    assert!(parse_device_log("t", &doc("{\"level\":\"INFO\"}"), NOW).is_none());
    assert!(parse_device_log("t", &doc("{\"message\":\"hi\"}"), NOW).is_none());
    assert!(parse_device_log("t", &doc("{\"level\":3,\"severity\":\"x\",\"msg\":\"m\"}"), NOW)
        .is_none());
    assert!(parse_device_log("t", &doc("{\"level\":\"\",\"message\":\"hi\"}"), NOW).is_none());
    assert!(parse_device_log("t", &doc("{\"level\":\"INFO\",\"message\":\"\"}"), NOW).is_none());
    assert!(parse_device_log("t", &doc("[\"level\",\"message\"]"), NOW).is_none());
}

#[test]
fn json_that_matches_nothing_gives_the_raw_capture_alone() {
    assert_eq!(parse_message_at("a/b", b"[]", NOW).len(), 1);
    assert_eq!(parse_message_at("a/b", b"\"text\"", NOW).len(), 1);
    assert_eq!(parse_message_at("a/b", b"{\"k\":\"v\"}", NOW).len(), 1);
    assert!(classify_json("a/b", &doc("null"), NOW).is_empty());
}

#[test]
fn decoded_text_with_and_without_a_document() {
    let json = doc("{\"value\":2}");
    let with = classify_decoded("a/b", "{\"value\":2}", Some(&json), NOW);
    assert_eq!(with.len(), 3);
    let without = classify_decoded("a/b", "{\"value\":2}", None, NOW);
    assert_eq!(without.len(), 2);
    assert!(matches!(without[1], ParsedMessage::DeviceLog(_)));
}

#[test]
fn numbers_carry_their_three_readings() {
    assert_eq!(
        doc("7"),
        Json::Number(Number { as_i64: Some(7), as_u64: Some(7), as_f64: Some(7.0f64.to_bits()) })
    );
    assert_eq!(
        doc("-7"),
        Json::Number(Number {
            as_i64: Some(-7),
            as_u64: None,
            as_f64: Some((-7.0f64).to_bits())
        })
    );
    assert_eq!(
        doc("18446744073709551615"),
        Json::Number(Number {
            as_i64: None,
            as_u64: Some(u64::MAX),
            as_f64: Some((u64::MAX as f64).to_bits())
        })
    );
    assert_eq!(
        doc("0.5"),
        Json::Number(Number { as_i64: None, as_u64: None, as_f64: Some(0.5f64.to_bits()) })
    );
}

#[test]
fn documents_are_read_variant_by_variant() {
    assert_eq!(parse_json("not json"), None);
    assert_eq!(parse_json(""), None);
    assert_eq!(doc("null"), Json::Null);
    assert_eq!(doc("true"), Json::Bool(true));
    assert_eq!(doc("\"a\\nb\""), Json::Text("a\nb".to_string()));
    assert_eq!(doc("[null,[false]]"), Json::Array(vec![Json::Null, Json::Array(vec![Json::Bool(false)])]));
    assert_eq!(
        doc("{\"b\":null,\"a\":\"x\"}"),
        Json::Object(vec![
            ("a".to_string(), Json::Text("x".to_string())),
            ("b".to_string(), Json::Null)
        ])
    );
}

#[test]
fn members_are_found_by_key() {
    let json = doc("{\"a\":1,\"b\":{\"c\":\"d\"}}");
    assert_eq!(json.get("a").and_then(|v| v.as_i64()), Some(1));
    assert_eq!(json.get("a").and_then(|v| v.as_f64()), Some(1.0f64.to_bits()));
    assert_eq!(json.get("b").and_then(|v| v.get("c")).and_then(|v| v.as_str()), Some("d"));
    assert!(json.get("c").is_none());
    assert!(json.get("").is_none());
    assert!(doc("[1]").get("a").is_none());
    assert_eq!(json.duplicate(), json);
}

#[test]
fn records_without_embedded_instant_carry_the_present() {
    let records = parse_message("x/dev1", b"plain words");
    assert_eq!(records.len(), 2);
    match (&records[0], &records[1]) {
        (ParsedMessage::SocketRead(raw), ParsedMessage::DeviceLog(log)) => {
            assert!(raw.timestamp.secs > 1_600_000_000);
            assert!(raw.timestamp.nanos < 2_000_000_000);
            assert_eq!(raw.timestamp, log.timestamp);
        }
        other => panic!("unexpected records {:?}", other),
    }
}

#[test]
fn all_records_of_a_document_share_its_instant() {
    let payload = b"{\"n\":2,\"m\":3,\"level\":\"I\",\"msg\":\"m\",\"ts\":\"2024-01-01T00:00:00Z\"}";
    let records = parse_message("x/dev1", payload);
    assert_eq!(records.len(), 4);
    let at = Timestamp { secs: 1_704_067_200, nanos: 0 };
    for r in &records[1..] {
        match r {
            ParsedMessage::SensorReading(x) => assert_eq!(x.timestamp, at),
            ParsedMessage::DeviceLog(x) => assert_eq!(x.timestamp, at),
            other => panic!("unexpected record {:?}", other),
        }
    }
}
