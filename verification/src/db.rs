//! The records that classification produces, each with its model.

use vstd::prelude::*;
use crate::instant::Timestamp;
use crate::json::{Json, JsonValue};

verus! {

/// One numeric measurement. `value_bits` is the IEEE-754 bit pattern of the
/// measured double.
#[derive(Debug, PartialEq, Eq)]
pub struct SensorReading {
    pub device_id: String,
    pub topic: String,
    pub value_bits: u64,
    pub timestamp: Timestamp,
}

/// The model of a sensor reading.
pub struct SensorReadingView {
    pub device_id: Seq<char>,
    pub topic: Seq<char>,
    pub value_bits: u64,
    pub timestamp: Timestamp,
}

impl View for SensorReading {
    type V = SensorReadingView;

    open spec fn view(&self) -> SensorReadingView {
        SensorReadingView {
            device_id: self.device_id@,
            topic: self.topic@,
            value_bits: self.value_bits,
            timestamp: self.timestamp,
        }
    }
}

/// The decoded text of a message, kept as it came.
#[derive(Debug, PartialEq, Eq)]
pub struct SocketRead {
    pub topic: String,
    pub payload: String,
    pub timestamp: Timestamp,
}

/// The model of a raw capture.
pub struct SocketReadView {
    pub topic: Seq<char>,
    pub payload: Seq<char>,
    pub timestamp: Timestamp,
}

impl View for SocketRead {
    type V = SocketReadView;

    open spec fn view(&self) -> SocketReadView {
        SocketReadView { topic: self.topic@, payload: self.payload@, timestamp: self.timestamp }
    }
}

/// A log line of a device.
#[derive(Debug, PartialEq, Eq)]
pub struct DeviceLog {
    pub device_id: String,
    pub level: String,
    pub message: String,
    pub topic: String,
    pub timestamp: Timestamp,
}

/// The model of a log line.
pub struct DeviceLogView {
    pub device_id: Seq<char>,
    pub level: Seq<char>,
    pub message: Seq<char>,
    pub topic: Seq<char>,
    pub timestamp: Timestamp,
}

impl View for DeviceLog {
    type V = DeviceLogView;

    open spec fn view(&self) -> DeviceLogView {
        DeviceLogView {
            device_id: self.device_id@,
            level: self.level@,
            message: self.message@,
            topic: self.topic@,
            timestamp: self.timestamp,
        }
    }
}

/// The state that a device reports of itself.
#[derive(Debug, PartialEq, Eq)]
pub struct DeviceState {
    pub device_id: String,
    pub topic: String,
    pub main_state: Option<i32>,
    pub secondary_state: Option<i32>,
    pub alerts: Option<Json>,
    pub rssi: Option<i32>,
    pub timestamp: Timestamp,
}

/// The model of a state record.
pub struct DeviceStateView {
    pub device_id: Seq<char>,
    pub topic: Seq<char>,
    pub main_state: Option<i32>,
    pub secondary_state: Option<i32>,
    pub alerts: Option<JsonValue>,
    pub rssi: Option<i32>,
    pub timestamp: Timestamp,
}

impl View for DeviceState {
    type V = DeviceStateView;

    open spec fn view(&self) -> DeviceStateView {
        DeviceStateView {
            device_id: self.device_id@,
            topic: self.topic@,
            main_state: self.main_state,
            secondary_state: self.secondary_state,
            alerts: match self.alerts {
                Some(a) => Some(a@),
                None => None,
            },
            rssi: self.rssi,
            timestamp: self.timestamp,
        }
    }
}

/// The diagnostic counters that a device reports of itself.
#[derive(Debug, PartialEq, Eq)]
pub struct DeviceHealth {
    pub device_id: String,
    pub topic: String,
    pub wifi_ssid: Option<String>,
    pub free_heap_size: Option<i64>,
    pub min_heap_size: Option<i64>,
    pub unexpected_reset_counter: Option<i32>,
    pub last_reset_reason: Option<String>,
    pub wifi_connect_counter: Option<i32>,
    pub cloud_connect_counter: Option<i32>,
    pub last_wifi_connection_ts: Option<i64>,
    pub last_cloud_connection_ts: Option<i64>,
    pub timestamp: Timestamp,
}

/// The model of a health record.
pub struct DeviceHealthView {
    pub device_id: Seq<char>,
    pub topic: Seq<char>,
    pub wifi_ssid: Option<Seq<char>>,
    pub free_heap_size: Option<i64>,
    pub min_heap_size: Option<i64>,
    pub unexpected_reset_counter: Option<i32>,
    pub last_reset_reason: Option<Seq<char>>,
    pub wifi_connect_counter: Option<i32>,
    pub cloud_connect_counter: Option<i32>,
    pub last_wifi_connection_ts: Option<i64>,
    pub last_cloud_connection_ts: Option<i64>,
    pub timestamp: Timestamp,
}

/// The model of an optional string.
pub open spec fn text_view(s: Option<String>) -> Option<Seq<char>> {
    match s {
        Some(t) => Some(t@),
        None => None,
    }
}

impl View for DeviceHealth {
    type V = DeviceHealthView;

    open spec fn view(&self) -> DeviceHealthView {
        DeviceHealthView {
            device_id: self.device_id@,
            topic: self.topic@,
            wifi_ssid: text_view(self.wifi_ssid),
            free_heap_size: self.free_heap_size,
            min_heap_size: self.min_heap_size,
            unexpected_reset_counter: self.unexpected_reset_counter,
            last_reset_reason: text_view(self.last_reset_reason),
            wifi_connect_counter: self.wifi_connect_counter,
            cloud_connect_counter: self.cloud_connect_counter,
            last_wifi_connection_ts: self.last_wifi_connection_ts,
            last_cloud_connection_ts: self.last_cloud_connection_ts,
            timestamp: self.timestamp,
        }
    }
}

} // verus!
