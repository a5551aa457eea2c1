//! What holds of every classification.

use vstd::prelude::*;
use vstd::utf8::{decode_utf8, valid_utf8};
use crate::db::SensorReadingView;
use crate::instant::Timestamp;
use crate::json::{json_document, JsonValue};
use crate::parser::{
    array_readings, classify, device_id_of, embedded_instant, flat_entry, flat_readings,
    has_state_fields, json_records, object_readings, raw_capture, sensor_entry, sensor_readings,
    sensors_readings, single_reading, state_of, timestamp_of, Record,
};

verus! {

/// The instant that stands in for every instant when instants are left out
/// of a comparison.
pub open spec fn no_instant() -> Timestamp {
    Timestamp { secs: 0, nanos: 0 }
}

/// A reading with its instant left out.
pub open spec fn reading_without_instant(r: SensorReadingView) -> SensorReadingView {
    SensorReadingView { timestamp: no_instant(), ..r }
}

/// A record with its instant left out.
pub open spec fn without_instant(r: Record) -> Record {
    match r {
        Record::SensorReading(x) => Record::SensorReading(reading_without_instant(x)),
        Record::SocketRead(x) => Record::SocketRead(
            crate::db::SocketReadView { timestamp: no_instant(), ..x },
        ),
        Record::DeviceLog(x) => Record::DeviceLog(
            crate::db::DeviceLogView { timestamp: no_instant(), ..x },
        ),
        Record::DeviceState(x) => Record::DeviceState(
            crate::db::DeviceStateView { timestamp: no_instant(), ..x },
        ),
        Record::DeviceHealth(x) => Record::DeviceHealth(
            crate::db::DeviceHealthView { timestamp: no_instant(), ..x },
        ),
    }
}

/// Records with their instants left out.
pub open spec fn all_without_instant(rs: Seq<Record>) -> Seq<Record> {
    Seq::new(rs.len(), |i: int| without_instant(rs[i]))
}

/// Readings with their instants left out.
pub open spec fn readings_without_instant(rs: Seq<SensorReadingView>) -> Seq<SensorReadingView> {
    Seq::new(rs.len(), |i: int| reading_without_instant(rs[i]))
}

proof fn lemma_readings_concat(a: Seq<SensorReadingView>, b: Seq<SensorReadingView>)
    ensures
        readings_without_instant(a + b) == readings_without_instant(a) + readings_without_instant(
            b,
        ),
{
    assert(readings_without_instant(a + b) =~= readings_without_instant(a)
        + readings_without_instant(b));
}

proof fn lemma_array_readings_instant(
    topic: Seq<char>,
    items: Seq<JsonValue>,
    id: Seq<char>,
    t1: Timestamp,
    t2: Timestamp,
)
    ensures
        readings_without_instant(array_readings(topic, items, id, t1)) == readings_without_instant(
            array_readings(topic, items, id, t2),
        ),
    decreases items.len(),
{
    if items.len() > 0 {
        lemma_array_readings_instant(topic, items.drop_last(), id, t1, t2);
        let e1 = sensor_entry(topic, items.last(), id, t1);
        let e2 = sensor_entry(topic, items.last(), id, t2);
        assert(readings_without_instant(e1) =~= readings_without_instant(e2));
        lemma_readings_concat(array_readings(topic, items.drop_last(), id, t1), e1);
        lemma_readings_concat(array_readings(topic, items.drop_last(), id, t2), e2);
    }
}

proof fn lemma_flat_readings_instant(
    topic: Seq<char>,
    entries: Seq<(Seq<char>, JsonValue)>,
    id: Seq<char>,
    t1: Timestamp,
    t2: Timestamp,
)
    ensures
        readings_without_instant(flat_readings(topic, entries, id, t1))
            == readings_without_instant(flat_readings(topic, entries, id, t2)),
    decreases entries.len(),
{
    if entries.len() > 0 {
        lemma_flat_readings_instant(topic, entries.drop_last(), id, t1, t2);
        let e1 = flat_entry(topic, entries.last(), id, t1);
        let e2 = flat_entry(topic, entries.last(), id, t2);
        assert(readings_without_instant(e1) =~= readings_without_instant(e2));
        lemma_readings_concat(flat_readings(topic, entries.drop_last(), id, t1), e1);
        lemma_readings_concat(flat_readings(topic, entries.drop_last(), id, t2), e2);
    }
}

proof fn lemma_sensor_readings_instant(
    topic: Seq<char>,
    json: JsonValue,
    now1: Timestamp,
    now2: Timestamp,
)
    ensures
        readings_without_instant(sensor_readings(topic, json, now1)) == readings_without_instant(
            sensor_readings(topic, json, now2),
        ),
{
    let id = device_id_of(topic, json);
    let t1 = timestamp_of(json, now1);
    let t2 = timestamp_of(json, now2);
    let a1 = single_reading(topic, json, id, t1);
    let a2 = single_reading(topic, json, id, t2);
    let b1 = sensors_readings(topic, json, id, t1);
    let b2 = sensors_readings(topic, json, id, t2);
    let c1 = object_readings(topic, json, id, t1);
    let c2 = object_readings(topic, json, id, t2);
    assert(readings_without_instant(a1) =~= readings_without_instant(a2));
    assert(readings_without_instant(b1) == readings_without_instant(b2)) by {
        match json.get("sensors"@) {
            Some(v) => match v.as_array() {
                Some(items) => {
                    lemma_array_readings_instant(topic, items, id, t1, t2);
                },
                None => {},
            },
            None => {},
        }
    }
    assert(readings_without_instant(c1) == readings_without_instant(c2)) by {
        match json.as_object() {
            Some(entries) => {
                lemma_flat_readings_instant(topic, entries, id, t1, t2);
            },
            None => {},
        }
    }
    lemma_readings_concat(a1, b1);
    lemma_readings_concat(a2, b2);
    lemma_readings_concat(a1 + b1, c1);
    lemma_readings_concat(a2 + b2, c2);
}

/// Two classifications of one document at two instants give the same
/// records, instants aside.
pub proof fn lemma_json_records_differ_in_instants_only(
    topic: Seq<char>,
    json: JsonValue,
    now1: Timestamp,
    now2: Timestamp,
)
    ensures
        all_without_instant(json_records(topic, json, now1)) == all_without_instant(
            json_records(topic, json, now2),
        ),
{
    let r1 = json_records(topic, json, now1);
    let r2 = json_records(topic, json, now2);
    if has_state_fields(json) {
        assert(all_without_instant(r1) =~= all_without_instant(r2));
    } else {
        lemma_sensor_readings_instant(topic, json, now1, now2);
        let s1 = sensor_readings(topic, json, now1);
        let s2 = sensor_readings(topic, json, now2);
        assert(readings_without_instant(s1).len() == readings_without_instant(s2).len());
        assert(s1.len() == s2.len());
        assert forall|i: int| 0 <= i < s1.len() implies reading_without_instant(s1[i])
            == reading_without_instant(s2[i]) by {
            assert(readings_without_instant(s1)[i] == readings_without_instant(s2)[i]);
        }
        assert(all_without_instant(r1) =~= all_without_instant(r2));
    }
}

/// Classifying one message twice gives the same records, instants aside.
pub proof fn lemma_classify_differs_in_instants_only(
    topic: Seq<char>,
    payload: Seq<u8>,
    now1: Timestamp,
    now2: Timestamp,
)
    ensures
        all_without_instant(classify(topic, payload, now1)) == all_without_instant(
            classify(topic, payload, now2),
        ),
{
    if valid_utf8(payload) {
        let text = decode_utf8(payload);
        match json_document(text) {
            Some(json) => {
                lemma_json_records_differ_in_instants_only(topic, json, now1, now2);
                let j1 = json_records(topic, json, now1);
                let j2 = json_records(topic, json, now2);
                assert(all_without_instant(j1).len() == all_without_instant(j2).len());
                assert forall|i: int| 0 <= i < j1.len() implies without_instant(j1[i])
                    == without_instant(j2[i]) by {
                    assert(all_without_instant(j1)[i] == all_without_instant(j2)[i]);
                }
                assert(all_without_instant(classify(topic, payload, now1)) =~= all_without_instant(
                    classify(topic, payload, now2),
                ));
            },
            None => {
                assert(all_without_instant(classify(topic, payload, now1)) =~= all_without_instant(
                    classify(topic, payload, now2),
                ));
            },
        }
    }
}

/// Where the document of a message carries its own instant, every record
/// after the raw capture is the same at whatever instant the message is
/// classified.
pub proof fn lemma_embedded_instant_fixes_records(
    topic: Seq<char>,
    payload: Seq<u8>,
    now1: Timestamp,
    now2: Timestamp,
)
    requires
        valid_utf8(payload),
        json_document(decode_utf8(payload)) matches Some(json) && embedded_instant(json) is Some,
    ensures
        classify(topic, payload, now1).skip(1) == classify(topic, payload, now2).skip(1),
{
    let json = json_document(decode_utf8(payload))->0;
    assert(timestamp_of(json, now1) == timestamp_of(json, now2));
    assert(json_records(topic, json, now1) == json_records(topic, json, now2));
    assert(classify(topic, payload, now1).skip(1) =~= json_records(topic, json, now1));
    assert(classify(topic, payload, now2).skip(1) =~= json_records(topic, json, now2));
}

/// Every message that decodes has the raw capture of its decoded text as its
/// first record, and no other raw capture; a message that does not decode
/// has no record.
pub proof fn lemma_raw_capture_first_and_once(topic: Seq<char>, payload: Seq<u8>, now: Timestamp)
    ensures
        !valid_utf8(payload) ==> classify(topic, payload, now).len() == 0,
        valid_utf8(payload) ==> classify(topic, payload, now).len() >= 1 && classify(
            topic,
            payload,
            now,
        )[0] == raw_capture(topic, decode_utf8(payload), now),
        forall|i: int|
            1 <= i < classify(topic, payload, now).len() ==> !(#[trigger] classify(
                topic,
                payload,
                now,
            )[i] is SocketRead),
{
}

/// A health record stands only directly behind the state record of the same
/// message, and beside state records stand neither readings nor logs.
pub proof fn lemma_health_follows_state(topic: Seq<char>, json: JsonValue, now: Timestamp)
    ensures
        forall|i: int|
            0 <= i < json_records(topic, json, now).len() && (#[trigger] json_records(
                topic,
                json,
                now,
            )[i]) is DeviceHealth ==> i == 1 && json_records(topic, json, now)[0] is DeviceState,
        has_state_fields(json) ==> json_records(topic, json, now).len() >= 1 && json_records(
            topic,
            json,
            now,
        )[0] == Record::DeviceState(state_of(topic, json, now)) && forall|i: int|
            0 <= i < json_records(topic, json, now).len() ==> {
                let r = #[trigger] json_records(topic, json, now)[i];
                !(r is SensorReading) && !(r is DeviceLog)
            },
        !has_state_fields(json) ==> forall|i: int|
            0 <= i < json_records(topic, json, now).len() ==> !(#[trigger] json_records(
                topic,
                json,
                now,
            )[i] is DeviceState),
{
}

/// The instant of a record.
pub open spec fn instant_of(r: Record) -> Timestamp {
    match r {
        Record::SensorReading(x) => x.timestamp,
        Record::SocketRead(x) => x.timestamp,
        Record::DeviceLog(x) => x.timestamp,
        Record::DeviceState(x) => x.timestamp,
        Record::DeviceHealth(x) => x.timestamp,
    }
}

proof fn lemma_array_readings_at(
    topic: Seq<char>,
    items: Seq<JsonValue>,
    id: Seq<char>,
    t: Timestamp,
)
    ensures
        forall|i: int|
            0 <= i < array_readings(topic, items, id, t).len() ==> (#[trigger] array_readings(
                topic,
                items,
                id,
                t,
            )[i]).timestamp == t,
    decreases items.len(),
{
    if items.len() > 0 {
        lemma_array_readings_at(topic, items.drop_last(), id, t);
        let before = array_readings(topic, items.drop_last(), id, t);
        let entry = sensor_entry(topic, items.last(), id, t);
        let all = array_readings(topic, items, id, t);
        assert forall|i: int| 0 <= i < all.len() implies (#[trigger] all[i]).timestamp == t by {
            if i < before.len() {
                assert(all[i] == before[i]);
            } else {
                assert(all[i] == entry[i - before.len()]);
            }
        }
    }
}

proof fn lemma_flat_readings_at(
    topic: Seq<char>,
    entries: Seq<(Seq<char>, JsonValue)>,
    id: Seq<char>,
    t: Timestamp,
)
    ensures
        forall|i: int|
            0 <= i < flat_readings(topic, entries, id, t).len() ==> (#[trigger] flat_readings(
                topic,
                entries,
                id,
                t,
            )[i]).timestamp == t,
    decreases entries.len(),
{
    if entries.len() > 0 {
        lemma_flat_readings_at(topic, entries.drop_last(), id, t);
        let before = flat_readings(topic, entries.drop_last(), id, t);
        let entry = flat_entry(topic, entries.last(), id, t);
        let all = flat_readings(topic, entries, id, t);
        assert forall|i: int| 0 <= i < all.len() implies (#[trigger] all[i]).timestamp == t by {
            if i < before.len() {
                assert(all[i] == before[i]);
            } else {
                assert(all[i] == entry[i - before.len()]);
            }
        }
    }
}

/// All records of one document carry one instant: the one that the document
/// embeds, else the instant of classification.
pub proof fn lemma_json_records_share_one_instant(
    topic: Seq<char>,
    json: JsonValue,
    now: Timestamp,
)
    ensures
        forall|i: int|
            0 <= i < json_records(topic, json, now).len() ==> instant_of(
                #[trigger] json_records(topic, json, now)[i],
            ) == timestamp_of(json, now),
{
    let id = device_id_of(topic, json);
    let t = timestamp_of(json, now);
    if !has_state_fields(json) {
        match json.get("sensors"@) {
            Some(v) => match v.as_array() {
                Some(items) => {
                    lemma_array_readings_at(topic, items, id, t);
                },
                None => {},
            },
            None => {},
        }
        match json.as_object() {
            Some(entries) => {
                lemma_flat_readings_at(topic, entries, id, t);
            },
            None => {},
        }
    }
}

/// The instant of every record is the instant of classification, or the
/// instant that the document of the message embeds.
pub proof fn lemma_every_instant_is_embedded_or_now(
    topic: Seq<char>,
    payload: Seq<u8>,
    now: Timestamp,
)
    ensures
        forall|i: int|
            0 <= i < classify(topic, payload, now).len() ==> {
                let t = instant_of(#[trigger] classify(topic, payload, now)[i]);
                t == now || (json_document(decode_utf8(payload)) matches Some(json)
                    && embedded_instant(json) == Some(t))
            },
{
    if valid_utf8(payload) {
        match json_document(decode_utf8(payload)) {
            Some(json) => {
                lemma_json_records_share_one_instant(topic, json, now);
                let all = classify(topic, payload, now);
                let rest = json_records(topic, json, now);
                assert forall|i: int| 0 <= i < all.len() implies {
                    let t = instant_of(#[trigger] all[i]);
                    t == now || embedded_instant(json) == Some(t)
                } by {
                    if i >= 1 {
                        assert(all[i] == rest[i - 1]);
                    }
                }
            },
            None => {},
        }
    }
}

} // verus!
