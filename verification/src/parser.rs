//! Classification of one message into its records.

use vstd::prelude::*;
use vstd::string::StrSliceExecFns;
use vstd::utf8::{decode_utf8, valid_utf8};
use crate::db::{
    text_view, DeviceHealth, DeviceHealthView, DeviceLog, DeviceLogView, DeviceState,
    DeviceStateView, SensorReading, SensorReadingView, SocketRead, SocketReadView,
};
use crate::instant::{
    choose_instant, current_instant, instant_from_epoch, read_epoch_seconds, read_rfc3339,
    rfc3339_instant, Timestamp,
};
use crate::json::{json_document, opt_view, read_json, Json, JsonValue};
use crate::text::{
    bounds_of, chars_of, child_topic, join_topic, mentions, mentions_word, range_is,
    range_starts_with, segment_bounds, split_topic,
};

verus! {

/// One record of a message.
#[derive(Debug, PartialEq, Eq)]
pub enum ParsedMessage {
    SensorReading(SensorReading),
    SocketRead(SocketRead),
    DeviceLog(DeviceLog),
    DeviceState(DeviceState),
    DeviceHealth(DeviceHealth),
}

/// The model of one record.
pub enum Record {
    SensorReading(SensorReadingView),
    SocketRead(SocketReadView),
    DeviceLog(DeviceLogView),
    DeviceState(DeviceStateView),
    DeviceHealth(DeviceHealthView),
}

impl View for ParsedMessage {
    type V = Record;

    open spec fn view(&self) -> Record {
        match self {
            ParsedMessage::SensorReading(r) => Record::SensorReading(r@),
            ParsedMessage::SocketRead(r) => Record::SocketRead(r@),
            ParsedMessage::DeviceLog(r) => Record::DeviceLog(r@),
            ParsedMessage::DeviceState(r) => Record::DeviceState(r@),
            ParsedMessage::DeviceHealth(r) => Record::DeviceHealth(r@),
        }
    }
}

/// The models of a list of records, in order.
pub open spec fn records_of(v: Seq<ParsedMessage>) -> Seq<Record> {
    Seq::new(v.len(), |i: int| v[i]@)
}

/// The models of a list of readings, in order.
pub open spec fn reading_views(v: Seq<SensorReading>) -> Seq<SensorReadingView> {
    Seq::new(v.len(), |i: int| v[i]@)
}

/// Readings as records, in order.
pub open spec fn wrap_readings(rs: Seq<SensorReadingView>) -> Seq<Record> {
    Seq::new(rs.len(), |i: int| Record::SensorReading(rs[i]))
}

/// The first of two optional values that is there.
pub open spec fn or_else<T>(a: Option<T>, b: Option<T>) -> Option<T> {
    if a is Some {
        a
    } else {
        b
    }
}

/// A list of one element where there is one, else the empty list.
pub open spec fn opt_seq<T>(a: Option<T>) -> Seq<T> {
    match a {
        Some(x) => seq![x],
        None => Seq::empty(),
    }
}

// ---------------------------------------------------------------------
// Field extractors
// ---------------------------------------------------------------------

/// The device id that the document names: the member `device_id`, else
/// `deviceId`, else `device`, whichever is present first, if it is a string.
pub open spec fn named_device(json: JsonValue) -> Option<Seq<char>> {
    match or_else(
        or_else(json.get("device_id"@), json.get("deviceId"@)),
        json.get("device"@),
    ) {
        Some(v) => v.as_text(),
        None => None,
    }
}

/// Whether a topic segment reads like a device id.
pub open spec fn looks_like_device(seg: Seq<char>) -> bool {
    "device"@.is_prefix_of(seg) || seg.len() >= 8
}

/// The first segment at or after `from` that reads like a device id.
pub open spec fn first_device_segment(segs: Seq<Seq<char>>, from: int) -> Option<Seq<char>>
    decreases segs.len() - from,
{
    if from < 0 || from >= segs.len() {
        None
    } else if looks_like_device(segs[from]) {
        Some(segs[from])
    } else {
        first_device_segment(segs, from + 1)
    }
}

/// The device id of a JSON message: what the document names, else the first
/// topic segment that reads like a device id, else `unknown`.
pub open spec fn device_id_of(topic: Seq<char>, json: JsonValue) -> Seq<char> {
    match named_device(json) {
        Some(id) => id,
        None => match first_device_segment(split_topic(topic), 0) {
            Some(seg) => seg,
            None => "unknown"@,
        },
    }
}

/// The member `key` where nothing was found before.
pub fn member_or<'a>(json: &'a Json, found: Option<&'a Json>, key: &str) -> (r: Option<&'a Json>)
    ensures
        opt_view(r) == or_else(opt_view(found), json@.get(key@)),
{
    match found {
        Some(v) => Some(v),
        None => json.get(key),
    }
}

/// Extracts the device id of a JSON message.
pub fn extract_device_id(topic: &str, json: &Json) -> (r: String)
    ensures
        r@ == device_id_of(topic@, json@),
{
    let found = member_or(json, member_or(json, json.get("device_id"), "deviceId"), "device");
    if let Some(v) = found {
        if let Some(id) = v.as_str() {
            return id.to_owned();
        }
    }
    let chars = chars_of(topic);
    let bounds = segment_bounds(&chars);
    let prefix = chars_of("device");
    let mut k: usize = 0;
    while k < bounds.len()
        invariant
            bounds_of(chars@, bounds@),
            chars@ == topic@,
            prefix@ == "device"@,
            named_device(json@) is None,
            k <= bounds.len(),
            first_device_segment(split_topic(topic@), 0) == first_device_segment(
                split_topic(topic@),
                k as int,
            ),
        decreases bounds.len() - k,
    {
        let b = bounds[k];
        assert(b == bounds@[k as int]);
        if range_starts_with(&chars, b.0, b.1, &prefix) || b.1 - b.0 >= 8 {
            return topic.substring_char(b.0, b.1).to_owned();
        }
        k += 1;
    }
    "unknown".to_owned()
}

/// The instant that the document carries: its member `timestamp`, else
/// `ts`, read as an RFC 3339 text or else as whole seconds since the epoch.
pub open spec fn embedded_instant(json: JsonValue) -> Option<Timestamp> {
    match or_else(json.get("timestamp"@), json.get("ts"@)) {
        Some(ts) => or_else(
            match ts.as_text() {
                Some(s) => rfc3339_instant(s),
                None => None,
            },
            match ts.as_i64() {
                Some(n) => instant_from_epoch(n),
                None => None,
            },
        ),
        None => None,
    }
}

/// The instant of the records of a JSON message: the one that the document
/// carries, else the instant of classification.
pub open spec fn timestamp_of(json: JsonValue, now: Timestamp) -> Timestamp {
    match embedded_instant(json) {
        Some(t) => t,
        None => now,
    }
}

/// Extracts the instant of the records of a JSON message.
pub fn extract_timestamp(json: &Json, now: Timestamp) -> (r: Timestamp)
    ensures
        r == timestamp_of(json@, now),
{
    match member_or(json, json.get("timestamp"), "ts") {
        Some(ts) => {
            let from_text = match ts.as_str() {
                Some(s) => read_rfc3339(s),
                None => None,
            };
            let from_epoch = match ts.as_i64() {
                Some(n) => read_epoch_seconds(n),
                None => None,
            };
            choose_instant(from_text, from_epoch, now)
        },
        None => now,
    }
}

// ---------------------------------------------------------------------
// Typed members
// ---------------------------------------------------------------------

/// A 64-bit integer cut down to its low 32 bits.
pub open spec fn narrow(n: i64) -> i32 {
    #[verifier::truncate]
    (n as i32)
}

/// Narrowing keeps the low 32 bits of an integer, and so every integer that
/// fits in 32 bits.
pub proof fn lemma_narrow_keeps_low_bits(n: i64)
    ensures
        (narrow(n) as i64) & 0xffff_ffff == n & 0xffff_ffff,
        i32::MIN <= n <= i32::MAX ==> narrow(n) == n,
{
    assert(((#[verifier::truncate] (n as i32)) as i64) & 0xffff_ffff == n & 0xffff_ffff)
        by (bit_vector);
}

/// The member `key` read as a signed 64-bit integer.
pub open spec fn i64_member(json: JsonValue, key: Seq<char>) -> Option<i64> {
    match json.get(key) {
        Some(v) => v.as_i64(),
        None => None,
    }
}

/// The member `key` read as a signed 64-bit integer and narrowed.
pub open spec fn i32_member(json: JsonValue, key: Seq<char>) -> Option<i32> {
    match i64_member(json, key) {
        Some(n) => Some(narrow(n)),
        None => None,
    }
}

/// The characters of the string member `key`.
pub open spec fn text_member(json: JsonValue, key: Seq<char>) -> Option<Seq<char>> {
    match json.get(key) {
        Some(v) => v.as_text(),
        None => None,
    }
}

/// The member `key` read as a signed 64-bit integer.
pub fn get_i64(json: &Json, key: &str) -> (r: Option<i64>)
    ensures
        r == i64_member(json@, key@),
{
    match json.get(key) {
        Some(v) => v.as_i64(),
        None => None,
    }
}

/// The member `key` read as a signed 64-bit integer and narrowed to its
/// low 32 bits.
pub fn get_i32(json: &Json, key: &str) -> (r: Option<i32>)
    ensures
        r == i32_member(json@, key@),
        i64_member(json@, key@) matches Some(n) ==> (i32::MIN <= n <= i32::MAX ==> r == Some(
            n as i32,
        ) && n as i32 == n),
{
    match get_i64(json, key) {
        Some(n) => Some(#[verifier::truncate] (n as i32)),
        None => None,
    }
}

/// The text of the string member `key`.
pub fn get_text(json: &Json, key: &str) -> (r: Option<String>)
    ensures
        text_view(r) == text_member(json@, key@),
{
    match json.get(key) {
        Some(v) => match v.as_str() {
            Some(s) => Some(s.to_owned()),
            None => None,
        },
        None => None,
    }
}

// ---------------------------------------------------------------------
// Device state and health
// ---------------------------------------------------------------------

/// Whether a document reports device state: it has at least one of the
/// members `main_state`, `secondary_state`, `alerts`, `rssi`.
pub open spec fn has_state_fields(json: JsonValue) -> bool {
    json.get("main_state"@) is Some || json.get("secondary_state"@) is Some || json.get(
        "alerts"@,
    ) is Some || json.get("rssi"@) is Some
}

/// The state record of a document that reports device state.
pub open spec fn state_of(topic: Seq<char>, json: JsonValue, now: Timestamp) -> DeviceStateView {
    DeviceStateView {
        device_id: device_id_of(topic, json),
        topic: topic,
        main_state: i32_member(json, "main_state"@),
        secondary_state: i32_member(json, "secondary_state"@),
        alerts: json.get("alerts"@),
        rssi: i32_member(json, "rssi"@),
        timestamp: timestamp_of(json, now),
    }
}

/// The health record that the `general` member of a health document gives.
pub open spec fn health_from_general(
    topic: Seq<char>,
    device_id: Seq<char>,
    general: JsonValue,
    timestamp: Timestamp,
) -> DeviceHealthView {
    DeviceHealthView {
        device_id: device_id,
        topic: topic,
        wifi_ssid: text_member(general, "wifiSsid"@),
        free_heap_size: i64_member(general, "freeHeapSize"@),
        min_heap_size: i64_member(general, "minHeapSize"@),
        unexpected_reset_counter: i32_member(general, "unexpectedResetCounter"@),
        last_reset_reason: text_member(general, "lastResetReason"@),
        wifi_connect_counter: i32_member(general, "wifiConnectCounter"@),
        cloud_connect_counter: i32_member(general, "cloudConnectCounter"@),
        last_wifi_connection_ts: i64_member(general, "lastWifiConnectionTs"@),
        last_cloud_connection_ts: i64_member(general, "lastCloudConnectionTs"@),
        timestamp: timestamp,
    }
}

/// The health record of a health document: there is one where the document
/// has a member `general`.
pub open spec fn health_from_document(
    topic: Seq<char>,
    device_id: Seq<char>,
    document: Option<JsonValue>,
    timestamp: Timestamp,
) -> Option<DeviceHealthView> {
    match document {
        Some(doc) => match doc.get("general"@) {
            Some(general) => Some(health_from_general(topic, device_id, general, timestamp)),
            None => None,
        },
        None => None,
    }
}

/// The health document behind a `health` member: the document that a string
/// holds, or the member itself where it is no string.
pub open spec fn health_document(health: JsonValue) -> Option<JsonValue> {
    match health.as_text() {
        Some(s) => json_document(s),
        None => Some(health),
    }
}

/// The health record of a document that reports device state.
pub open spec fn health_of(topic: Seq<char>, json: JsonValue, now: Timestamp) -> Option<
    DeviceHealthView,
> {
    match json.get("health"@) {
        Some(h) => health_from_document(
            topic,
            device_id_of(topic, json),
            health_document(h),
            timestamp_of(json, now),
        ),
        None => None,
    }
}

/// The model of an optional health record.
pub open spec fn health_view(h: Option<DeviceHealth>) -> Option<DeviceHealthView> {
    match h {
        Some(x) => Some(x@),
        None => None,
    }
}

/// Builds the health record from a health document that was already read.
pub fn parse_health_document(
    topic: &str,
    device_id: &str,
    document: Option<&Json>,
    timestamp: Timestamp,
) -> (r: Option<DeviceHealth>)
    ensures
        health_view(r) == health_from_document(
            topic@,
            device_id@,
            opt_view(document),
            timestamp,
        ),
{
    let doc = match document {
        Some(d) => d,
        None => {
            return None;
        },
    };
    let general = match doc.get("general") {
        Some(g) => g,
        None => {
            return None;
        },
    };
    Some(
        DeviceHealth {
            device_id: device_id.to_owned(),
            topic: topic.to_owned(),
            wifi_ssid: get_text(general, "wifiSsid"),
            free_heap_size: get_i64(general, "freeHeapSize"),
            min_heap_size: get_i64(general, "minHeapSize"),
            unexpected_reset_counter: get_i32(general, "unexpectedResetCounter"),
            last_reset_reason: get_text(general, "lastResetReason"),
            wifi_connect_counter: get_i32(general, "wifiConnectCounter"),
            cloud_connect_counter: get_i32(general, "cloudConnectCounter"),
            last_wifi_connection_ts: get_i64(general, "lastWifiConnectionTs"),
            last_cloud_connection_ts: get_i64(general, "lastCloudConnectionTs"),
            timestamp,
        },
    )
}

/// The state record and the health record of a document, where it reports
/// device state.
pub fn parse_device_state_and_health(topic: &str, json: &Json, now: Timestamp) -> (r: Option<
    (DeviceState, Option<DeviceHealth>),
>)
    ensures
        r is Some <==> has_state_fields(json@),
        r matches Some(pair) ==> pair.0@ == state_of(topic@, json@, now) && health_view(pair.1)
            == health_of(topic@, json@, now),
{
    let has_state_fields = json.get("main_state").is_some() || json.get(
        "secondary_state",
    ).is_some() || json.get("alerts").is_some() || json.get("rssi").is_some();
    if !has_state_fields {
        return None;
    }
    let device_id = extract_device_id(topic, json);
    let timestamp = extract_timestamp(json, now);
    let alerts = match json.get("alerts") {
        Some(a) => Some(a.duplicate()),
        None => None,
    };
    let health = match json.get("health") {
        Some(h) => {
            match h.as_str() {
                Some(s) => {
                    let document = read_json(s);
                    parse_health_document(topic, device_id.as_str(), document.as_ref(), timestamp)
                },
                None => parse_health_document(topic, device_id.as_str(), Some(h), timestamp),
            }
        },
        None => None,
    };
    let state = DeviceState {
        device_id,
        topic: topic.to_owned(),
        main_state: get_i32(json, "main_state"),
        secondary_state: get_i32(json, "secondary_state"),
        alerts,
        rssi: get_i32(json, "rssi"),
        timestamp,
    };
    Some((state, health))
}

// ---------------------------------------------------------------------
// Sensor readings
// ---------------------------------------------------------------------

/// A reading made of its four parts.
pub open spec fn reading(
    device_id: Seq<char>,
    topic: Seq<char>,
    value_bits: u64,
    timestamp: Timestamp,
) -> SensorReadingView {
    SensorReadingView { device_id, topic, value_bits, timestamp }
}

/// The bits of the numeric member `key`.
pub open spec fn number_member(json: JsonValue, key: Seq<char>) -> Option<u64> {
    match json.get(key) {
        Some(v) => v.as_f64(),
        None => None,
    }
}

/// The reading of one entry of a `sensors` array: there is one where the
/// entry has a string `name` and a numeric `value`.
pub open spec fn sensor_entry(
    topic: Seq<char>,
    item: JsonValue,
    device_id: Seq<char>,
    timestamp: Timestamp,
) -> Seq<SensorReadingView> {
    match (text_member(item, "name"@), number_member(item, "value"@)) {
        (Some(name), Some(bits)) => seq![
            reading(device_id, child_topic(topic, name), bits, timestamp),
        ],
        _ => Seq::empty(),
    }
}

/// The readings of the entries of a `sensors` array, in order.
pub open spec fn array_readings(
    topic: Seq<char>,
    items: Seq<JsonValue>,
    device_id: Seq<char>,
    timestamp: Timestamp,
) -> Seq<SensorReadingView>
    decreases items.len(),
{
    if items.len() == 0 {
        Seq::empty()
    } else {
        array_readings(topic, items.drop_last(), device_id, timestamp) + sensor_entry(
            topic,
            items.last(),
            device_id,
            timestamp,
        )
    }
}

/// The reading of one member of a flat object: there is one where the value
/// is a number and the key is neither `timestamp` nor `device_id`.
pub open spec fn flat_entry(
    topic: Seq<char>,
    entry: (Seq<char>, JsonValue),
    device_id: Seq<char>,
    timestamp: Timestamp,
) -> Seq<SensorReadingView> {
    match entry.1.as_f64() {
        Some(bits) => if entry.0 != "timestamp"@ && entry.0 != "device_id"@ {
            seq![reading(device_id, child_topic(topic, entry.0), bits, timestamp)]
        } else {
            Seq::empty()
        },
        None => Seq::empty(),
    }
}

/// The readings of the members of a flat object, in order.
pub open spec fn flat_readings(
    topic: Seq<char>,
    entries: Seq<(Seq<char>, JsonValue)>,
    device_id: Seq<char>,
    timestamp: Timestamp,
) -> Seq<SensorReadingView>
    decreases entries.len(),
{
    if entries.len() == 0 {
        Seq::empty()
    } else {
        flat_readings(topic, entries.drop_last(), device_id, timestamp) + flat_entry(
            topic,
            entries.last(),
            device_id,
            timestamp,
        )
    }
}

/// The reading of a top-level numeric `value`, at the message's own topic.
pub open spec fn single_reading(
    topic: Seq<char>,
    json: JsonValue,
    device_id: Seq<char>,
    timestamp: Timestamp,
) -> Seq<SensorReadingView> {
    match number_member(json, "value"@) {
        Some(bits) => seq![reading(device_id, topic, bits, timestamp)],
        None => Seq::empty(),
    }
}

/// The readings of a `sensors` member, where it is an array.
pub open spec fn sensors_readings(
    topic: Seq<char>,
    json: JsonValue,
    device_id: Seq<char>,
    timestamp: Timestamp,
) -> Seq<SensorReadingView> {
    match json.get("sensors"@) {
        Some(v) => match v.as_array() {
            Some(items) => array_readings(topic, items, device_id, timestamp),
            None => Seq::empty(),
        },
        None => Seq::empty(),
    }
}

/// The readings of the document's own members, where it is an object.
pub open spec fn object_readings(
    topic: Seq<char>,
    json: JsonValue,
    device_id: Seq<char>,
    timestamp: Timestamp,
) -> Seq<SensorReadingView> {
    match json.as_object() {
        Some(entries) => flat_readings(topic, entries, device_id, timestamp),
        None => Seq::empty(),
    }
}

/// The sensor readings of a document: the three shapes, one after the other.
pub open spec fn sensor_readings(topic: Seq<char>, json: JsonValue, now: Timestamp) -> Seq<
    SensorReadingView,
> {
    let id = device_id_of(topic, json);
    let ts = timestamp_of(json, now);
    single_reading(topic, json, id, ts) + sensors_readings(topic, json, id, ts) + object_readings(
        topic,
        json,
        id,
        ts,
    )
}

/// The bits of the numeric member `key`.
pub fn get_number(json: &Json, key: &str) -> (r: Option<u64>)
    ensures
        r == number_member(json@, key@),
{
    match json.get(key) {
        Some(v) => v.as_f64(),
        None => None,
    }
}

/// The sensor readings of a document, in order; none where no shape matches.
pub fn parse_sensor_readings(topic: &str, json: &Json, now: Timestamp) -> (r: Vec<SensorReading>)
    ensures
        reading_views(r@) == sensor_readings(topic@, json@, now),
{
    let mut readings: Vec<SensorReading> = Vec::new();
    let device_id = extract_device_id(topic, json);
    let timestamp = extract_timestamp(json, now);
    let ghost id = device_id@;
    let ghost first = single_reading(topic@, json@, id, timestamp);
    let ghost second = sensors_readings(topic@, json@, id, timestamp);

    if let Some(bits) = get_number(json, "value") {
        readings.push(
            SensorReading {
                device_id: device_id.clone(),
                topic: topic.to_owned(),
                value_bits: bits,
                timestamp,
            },
        );
    }
    assert(reading_views(readings@) =~= first);

    if let Some(Json::Array(items)) = json.get("sensors") {
        let ghost models = json@.get("sensors"@)->0->Array_0;
        let mut i: usize = 0;
        assert(models.take(0) =~= Seq::empty());
        while i < items.len()
            invariant
                i <= items.len(),
                models.len() == items.len(),
                forall|k: int| 0 <= k < items.len() ==> (#[trigger] models[k]) == items[k]@,
                device_id@ == id,
                reading_views(readings@) =~= first + array_readings(
                    topic@,
                    models.take(i as int),
                    id,
                    timestamp,
                ),
            decreases items.len() - i,
        {
            let item = &items[i];
            let ghost before = readings@;
            proof {
                assert(models.take(i + 1).drop_last() =~= models.take(i as int));
                assert(models.take(i + 1).last() == item@);
            }
            if let (Some(name), Some(bits)) = (get_text(item, "name"), get_number(item, "value")) {
                readings.push(
                    SensorReading {
                        device_id: device_id.clone(),
                        topic: join_topic(topic, name.as_str()),
                        value_bits: bits,
                        timestamp,
                    },
                );
                assert(reading_views(readings@) =~= reading_views(before).push(
                    readings@.last()@,
                ));
            }
            i += 1;
        }
        assert(models.take(i as int) =~= models);
    }
    assert(reading_views(readings@) =~= first + second);

    if let Json::Object(entries) = json {
        let ghost models = json@->Object_0;
        let timestamp_key = "timestamp".to_owned();
        let device_key = "device_id".to_owned();
        let mut i: usize = 0;
        assert(models.take(0) =~= Seq::empty());
        while i < entries.len()
            invariant
                i <= entries.len(),
                models.len() == entries.len(),
                forall|k: int|
                    0 <= k < entries.len() ==> (#[trigger] models[k]) == (
                        entries[k].0@,
                        entries[k].1@,
                    ),
                device_id@ == id,
                timestamp_key@ == "timestamp"@,
                device_key@ == "device_id"@,
                reading_views(readings@) =~= first + second + flat_readings(
                    topic@,
                    models.take(i as int),
                    id,
                    timestamp,
                ),
            decreases entries.len() - i,
        {
            let key = &entries[i].0;
            let value = &entries[i].1;
            let ghost before = readings@;
            proof {
                assert(models.take(i + 1).drop_last() =~= models.take(i as int));
                assert(models.take(i + 1).last() == (key@, value@));
            }
            if let Some(bits) = value.as_f64() {
                if *key != timestamp_key && *key != device_key {
                    readings.push(
                        SensorReading {
                            device_id: device_id.clone(),
                            topic: join_topic(topic, key.as_str()),
                            value_bits: bits,
                            timestamp,
                        },
                    );
                    assert(reading_views(readings@) =~= reading_views(before).push(
                        readings@.last()@,
                    ));
                }
            }
            i += 1;
        }
        assert(models.take(i as int) =~= models);
    }
    readings
}

// ---------------------------------------------------------------------
// Device logs
// ---------------------------------------------------------------------

/// The member that a chain of keys found, where it is a string that is not
/// empty.
pub open spec fn filled_text(found: Option<JsonValue>) -> Option<Seq<char>> {
    match found {
        Some(v) => match v.as_text() {
            Some(s) => if s.len() > 0 {
                Some(s)
            } else {
                None
            },
            None => None,
        },
        None => None,
    }
}

/// The level of a structured log: the member `level`, else `severity`.
pub open spec fn log_level(json: JsonValue) -> Option<Seq<char>> {
    filled_text(or_else(json.get("level"@), json.get("severity"@)))
}

/// The message of a structured log: the member `message`, else `msg`, else
/// `text`.
pub open spec fn log_message(json: JsonValue) -> Option<Seq<char>> {
    filled_text(or_else(or_else(json.get("message"@), json.get("msg"@)), json.get("text"@)))
}

/// The log record of a document: there is one where the document has a
/// level and a message.
pub open spec fn log_of(topic: Seq<char>, json: JsonValue, now: Timestamp) -> Option<
    DeviceLogView,
> {
    match (log_level(json), log_message(json)) {
        (Some(level), Some(message)) => Some(
            DeviceLogView {
                device_id: device_id_of(topic, json),
                level,
                message,
                topic,
                timestamp: timestamp_of(json, now),
            },
        ),
        _ => None,
    }
}

/// The model of an optional log record.
pub open spec fn log_view(l: Option<DeviceLog>) -> Option<DeviceLogView> {
    match l {
        Some(x) => Some(x@),
        None => None,
    }
}

/// The text of the member that a chain of keys found, where it is a string
/// that is not empty.
pub fn filled_str<'a>(found: Option<&'a Json>) -> (r: Option<&'a str>)
    ensures
        match r {
            Some(s) => filled_text(opt_view(found)) == Some(s@),
            None => filled_text(opt_view(found)) is None,
        },
{
    match found {
        Some(v) => match v.as_str() {
            Some(s) => if s.unicode_len() > 0 {
                Some(s)
            } else {
                None
            },
            None => None,
        },
        None => None,
    }
}

/// The log record of a document, where it has a level and a message.
pub fn parse_device_log(topic: &str, json: &Json, now: Timestamp) -> (r: Option<DeviceLog>)
    ensures
        log_view(r) == log_of(topic@, json@, now),
{
    let level = match filled_str(member_or(json, json.get("level"), "severity")) {
        Some(s) => s,
        None => {
            return None;
        },
    };
    let message = match filled_str(
        member_or(json, member_or(json, json.get("message"), "msg"), "text"),
    ) {
        Some(s) => s,
        None => {
            return None;
        },
    };
    Some(
        DeviceLog {
            device_id: extract_device_id(topic, json),
            level: level.to_owned(),
            message: message.to_owned(),
            topic: topic.to_owned(),
            timestamp: extract_timestamp(json, now),
        },
    )
}

/// Whether a topic segment is one of the reserved words that name no device.
pub open spec fn is_reserved(seg: Seq<char>) -> bool {
    seg == "diagnostics"@ || seg == "debug"@ || seg == "logs"@
}

/// The first segment at or after `from` that is neither empty nor reserved.
pub open spec fn first_plain_segment(segs: Seq<Seq<char>>, from: int) -> Option<Seq<char>>
    decreases segs.len() - from,
{
    if from < 0 || from >= segs.len() {
        None
    } else if segs[from].len() > 0 && !is_reserved(segs[from]) {
        Some(segs[from])
    } else {
        first_plain_segment(segs, from + 1)
    }
}

/// The device id of a plain-text message.
pub open spec fn plain_device_id(topic: Seq<char>) -> Seq<char> {
    match first_plain_segment(split_topic(topic), 0) {
        Some(seg) => seg,
        None => "unknown"@,
    }
}

/// The level of a plain-text message, by the words that topic and text
/// hold, letter case aside.
pub open spec fn plain_level(topic: Seq<char>, text: Seq<char>) -> Seq<char> {
    if mentions(topic, "error"@) || mentions(text, "error"@) {
        "ERROR"@
    } else if mentions(topic, "warn"@) || mentions(text, "warn"@) {
        "WARN"@
    } else if mentions(topic, "debug"@) || mentions(topic, "diagnostics"@) {
        "DEBUG"@
    } else {
        "INFO"@
    }
}

/// The log record of a plain-text message.
pub open spec fn plain_log(topic: Seq<char>, text: Seq<char>, now: Timestamp) -> DeviceLogView {
    DeviceLogView {
        device_id: plain_device_id(topic),
        level: plain_level(topic, text),
        message: text,
        topic,
        timestamp: now,
    }
}

/// Extracts the device id of a plain-text message from its topic.
pub fn plain_text_device_id(topic: &str) -> (r: String)
    ensures
        r@ == plain_device_id(topic@),
{
    let chars = chars_of(topic);
    let bounds = segment_bounds(&chars);
    let diagnostics = chars_of("diagnostics");
    let debug = chars_of("debug");
    let logs = chars_of("logs");
    let mut k: usize = 0;
    while k < bounds.len()
        invariant
            bounds_of(chars@, bounds@),
            chars@ == topic@,
            diagnostics@ == "diagnostics"@,
            debug@ == "debug"@,
            logs@ == "logs"@,
            k <= bounds.len(),
            first_plain_segment(split_topic(topic@), 0) == first_plain_segment(
                split_topic(topic@),
                k as int,
            ),
        decreases bounds.len() - k,
    {
        let b = bounds[k];
        assert(b == bounds@[k as int]);
        if b.1 > b.0 && !range_is(&chars, b.0, b.1, &diagnostics) && !range_is(
            &chars,
            b.0,
            b.1,
            &debug,
        ) && !range_is(&chars, b.0, b.1, &logs) {
            return topic.substring_char(b.0, b.1).to_owned();
        }
        k += 1;
    }
    "unknown".to_owned()
}

/// Picks the level of a plain-text message.
pub fn plain_text_level(topic: &str, text: &str) -> (r: &'static str)
    ensures
        r@ == plain_level(topic@, text@),
{
    let topic_chars = chars_of(topic);
    let text_chars = chars_of(text);
    let error = chars_of("error");
    let warn = chars_of("warn");
    if mentions_word(&topic_chars, &error) || mentions_word(&text_chars, &error) {
        "ERROR"
    } else if mentions_word(&topic_chars, &warn) || mentions_word(&text_chars, &warn) {
        "WARN"
    } else if mentions_word(&topic_chars, &chars_of("debug")) || mentions_word(
        &topic_chars,
        &chars_of("diagnostics"),
    ) {
        "DEBUG"
    } else {
        "INFO"
    }
}

/// The log record of a message whose text is not JSON.
pub fn parse_plain_text_log(topic: &str, text: &str, now: Timestamp) -> (r: DeviceLog)
    ensures
        r@ == plain_log(topic@, text@, now),
{
    DeviceLog {
        device_id: plain_text_device_id(topic),
        level: plain_text_level(topic, text).to_owned(),
        message: text.to_owned(),
        topic: topic.to_owned(),
        timestamp: now,
    }
}

// ---------------------------------------------------------------------
// Whole messages
// ---------------------------------------------------------------------

/// The records of a JSON document, after the raw capture: state and health
/// where the document reports device state, else its sensor readings and
/// then its log record.
pub open spec fn json_records(topic: Seq<char>, json: JsonValue, now: Timestamp) -> Seq<Record> {
    if has_state_fields(json) {
        seq![Record::DeviceState(state_of(topic, json, now))] + match health_of(topic, json, now) {
            Some(h) => seq![Record::DeviceHealth(h)],
            None => Seq::empty(),
        }
    } else {
        wrap_readings(sensor_readings(topic, json, now)) + match log_of(topic, json, now) {
            Some(l) => seq![Record::DeviceLog(l)],
            None => Seq::empty(),
        }
    }
}

/// The raw capture of a message.
pub open spec fn raw_capture(topic: Seq<char>, text: Seq<char>, now: Timestamp) -> Record {
    Record::SocketRead(SocketReadView { topic, payload: text, timestamp: now })
}

/// The records of a decoded message, given the document that its text holds.
pub open spec fn decoded_records(
    topic: Seq<char>,
    text: Seq<char>,
    document: Option<JsonValue>,
    now: Timestamp,
) -> Seq<Record> {
    seq![raw_capture(topic, text, now)] + match document {
        Some(json) => json_records(topic, json, now),
        None => seq![Record::DeviceLog(plain_log(topic, text, now))],
    }
}

/// The records of a message classified at the instant `now`: none where the
/// payload is not UTF-8.
pub open spec fn classify(topic: Seq<char>, payload: Seq<u8>, now: Timestamp) -> Seq<Record> {
    if valid_utf8(payload) {
        decoded_records(topic, decode_utf8(payload), json_document(decode_utf8(payload)), now)
    } else {
        Seq::empty()
    }
}

/// Calls `String::from_utf8` on a copy of the bytes. It succeeds exactly on
/// valid UTF-8 and then holds the decoded characters.
#[verifier::external_body]
pub(crate) fn decode_text(payload: &[u8]) -> (r: Option<String>)
    ensures
        r is Some <==> valid_utf8(payload@),
        r matches Some(s) ==> s@ == decode_utf8(payload@),
{
    String::from_utf8(payload.to_vec()).ok()
}

/// The records of a JSON document, after the raw capture.
pub fn classify_json(topic: &str, json: &Json, now: Timestamp) -> (r: Vec<ParsedMessage>)
    ensures
        records_of(r@) == json_records(topic@, json@, now),
{
    let mut results: Vec<ParsedMessage> = Vec::new();
    match parse_device_state_and_health(topic, json, now) {
        Some((state, health)) => {
            results.push(ParsedMessage::DeviceState(state));
            if let Some(h) = health {
                results.push(ParsedMessage::DeviceHealth(h));
            }
            assert(records_of(results@) =~= json_records(topic@, json@, now));
        },
        None => {
            let readings = parse_sensor_readings(topic, json, now);
            let mut i: usize = 0;
            while i < readings.len()
                invariant
                    i <= readings.len(),
                    results.len() == i,
                    forall|k: int|
                        0 <= k < i ==> (#[trigger] results[k])@ == Record::SensorReading(
                            readings[k]@,
                        ),
                decreases readings.len() - i,
            {
                let reading = &readings[i];
                results.push(
                    ParsedMessage::SensorReading(
                        SensorReading {
                            device_id: reading.device_id.clone(),
                            topic: reading.topic.clone(),
                            value_bits: reading.value_bits,
                            timestamp: reading.timestamp,
                        },
                    ),
                );
                i += 1;
            }
            assert(records_of(results@) =~= wrap_readings(reading_views(readings@)));
            if let Some(log) = parse_device_log(topic, json, now) {
                results.push(ParsedMessage::DeviceLog(log));
            }
            assert(records_of(results@) =~= json_records(topic@, json@, now));
        },
    }
    results
}

/// The records of a decoded message, given the document that its text holds
/// (`None` where the text is not JSON).
pub fn classify_decoded(topic: &str, text: &str, document: Option<&Json>, now: Timestamp) -> (r:
    Vec<ParsedMessage>)
    ensures
        records_of(r@) == decoded_records(topic@, text@, opt_view(document), now),
{
    let mut results: Vec<ParsedMessage> = Vec::new();
    results.push(
        ParsedMessage::SocketRead(
            SocketRead { topic: topic.to_owned(), payload: text.to_owned(), timestamp: now },
        ),
    );
    match document {
        Some(json) => {
            let mut rest = classify_json(topic, json, now);
            let ghost head = results@;
            let ghost tail = rest@;
            results.append(&mut rest);
            assert(records_of(results@) =~= records_of(head) + records_of(tail));
        },
        None => {
            results.push(ParsedMessage::DeviceLog(parse_plain_text_log(topic, text, now)));
        },
    }
    assert(records_of(results@) =~= decoded_records(topic@, text@, opt_view(document), now));
    results
}

/// Classifies one message at the instant `now`.
pub fn parse_message_at(topic: &str, payload: &[u8], now: Timestamp) -> (r: Vec<ParsedMessage>)
    ensures
        records_of(r@) == classify(topic@, payload@, now),
{
    let text = match decode_text(payload) {
        Some(s) => s,
        None => {
            let none: Vec<ParsedMessage> = Vec::new();
            assert(records_of(none@) =~= Seq::<Record>::empty());
            return none;
        },
    };
    let document = read_json(text.as_str());
    classify_decoded(topic, text.as_str(), document.as_ref(), now)
}

/// Classifies one message at the present instant.
///
/// The payload that is not UTF-8 gives no record. Every other payload gives
/// the raw capture of its decoded text first, and after it the records that
/// `classify` states.
pub fn parse_message(topic: &str, payload: &[u8]) -> (r: Vec<ParsedMessage>)
    ensures
        exists|now: Timestamp| records_of(r@) == #[trigger] classify(topic@, payload@, now),
        !valid_utf8(payload@) ==> r@.len() == 0,
        valid_utf8(payload@) ==> r@.len() >= 1 && (r@[0] matches ParsedMessage::SocketRead(raw)
            && raw.payload@ == decode_utf8(payload@) && raw.topic@ == topic@),
{
    let now = current_instant();
    let r = parse_message_at(topic, payload, now);
    proof {
        let recs = classify(topic@, payload@, now);
        assert(records_of(r@).len() == r@.len());
        if valid_utf8(payload@) {
            assert(recs[0] == raw_capture(topic@, decode_utf8(payload@), now));
            assert(records_of(r@)[0] == r@[0]@);
        }
    }
    r
}

} // verus!
