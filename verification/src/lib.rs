//! Classification of device telemetry messages into typed records.
//!
//! A message is a topic and a payload. The payload is decoded as UTF-8 text,
//! read as JSON where it is JSON, and turned into an ordered list of records:
//! the raw capture first, then device state and health, or sensor readings
//! and a log entry, or a single log entry for plain text.

pub mod json;
pub mod text;
pub mod instant;
pub mod db;
pub mod parser;
pub mod laws;
